//! The retrieval fan-in: search hits are resolved to excerpts one by one, in
//! any order, and leave in the order in which the search returned them.

use vstd::prelude::*;
use vstd::string::StringSliceAdditionalSpecFns;
use vstd::utf8::{
    encode_utf8, encode_utf8_valid_utf8, is_char_boundary,
    is_char_boundary_iff_not_is_continuation_byte, is_char_boundary_start_end_of_seq,
    valid_utf8_split,
};
use crate::context::{views, CodebaseExcerpt, ExcerptView};

verus! {

/// One hit of a codebase search: the path of the file relative to its
/// worktree, the byte range of the hit within the file, and the bit pattern
/// of its relevance score.
#[derive(Debug)]
pub struct SearchHit {
    pub path: String,
    pub start: usize,
    pub end: usize,
    pub score_bits: u32,
}

/// Whether the bytes from `start` up to `end` can be cut out of the UTF-8
/// text `content`: the range lies within the text and both ends fall between
/// characters.
pub open spec fn sliceable(content: Seq<char>, start: int, end: int) -> bool {
    &&& 0 <= start <= end <= encode_utf8(content).len()
    &&& is_char_boundary(encode_utf8(content), start)
    &&& is_char_boundary(encode_utf8(content), end)
}

/// In valid UTF-8, a character boundary before another one is a character
/// boundary of the text that ends at the second.
proof fn lemma_boundary_of_prefix(bytes: Seq<u8>, start: int, end: int)
    requires
        vstd::utf8::valid_utf8(bytes),
        0 <= start <= end <= bytes.len(),
        is_char_boundary(bytes, start),
        is_char_boundary(bytes, end),
    ensures
        vstd::utf8::valid_utf8(bytes.subrange(0, end)),
        is_char_boundary(bytes.subrange(0, end), start),
{
    let head = bytes.subrange(0, end);
    valid_utf8_split(bytes, end);
    if start == end {
        is_char_boundary_start_end_of_seq(head);
    } else {
        is_char_boundary_iff_not_is_continuation_byte(bytes, start);
        is_char_boundary_iff_not_is_continuation_byte(head, start);
        assert(head[start] == bytes[start]);
    }
}

/// The text between the byte offsets `start` and `end` of `content`, or
/// nothing where that range cannot be cut out of it.
pub fn excerpt_text(content: &str, start: usize, end: usize) -> (text: Option<String>)
    ensures
        match text {
            Some(text) => sliceable(content@, start as int, end as int) && encode_utf8(text@)
                == encode_utf8(content@).subrange(start as int, end as int),
            None => !sliceable(content@, start as int, end as int),
        },
{
    if start > end || end > content.as_bytes().len() {
        return None;
    }
    if !content.is_char_boundary(start) || !content.is_char_boundary(end) {
        return None;
    }
    proof {
        encode_utf8_valid_utf8(content@);
        lemma_boundary_of_prefix(content.spec_bytes(), start as int, end as int);
    }
    let (head, _) = content.split_at(end);
    let (_, middle) = head.split_at(start);
    proof {
        assert(middle.spec_bytes() =~= content.spec_bytes().subrange(start as int, end as int));
    }
    Some(middle.to_owned())
}

impl CodebaseExcerpt {
    /// The excerpt that `hit` denotes in the loaded `content` of its file, or
    /// nothing where the range of the hit cannot be cut out of the content.
    pub fn from_hit(hit: &SearchHit, content: &str) -> (excerpt: Option<CodebaseExcerpt>)
        ensures
            match excerpt {
                Some(excerpt) => {
                    &&& sliceable(content@, hit.start as int, hit.end as int)
                    &&& excerpt.path@ == hit.path@
                    &&& encode_utf8(excerpt.text@) == encode_utf8(content@).subrange(
                        hit.start as int,
                        hit.end as int,
                    )
                    &&& excerpt.score_bits == hit.score_bits
                },
                None => !sliceable(content@, hit.start as int, hit.end as int),
            },
    {
        match excerpt_text(content, hit.start, hit.end) {
            Some(text) => Some(
                CodebaseExcerpt { path: hit.path.clone(), text, score_bits: hit.score_bits },
            ),
            None => None,
        }
    }
}

/// What has become of one hit.
#[derive(Debug)]
pub enum Resolution {
    /// The excerpt has not arrived yet.
    Waiting,
    /// The file could not be resolved or loaded; the hit is dropped.
    Failed,
    /// The excerpt has arrived.
    Loaded(CodebaseExcerpt),
}

/// What a [`Resolution`] holds.
pub enum ResolutionView {
    Waiting,
    Failed,
    Loaded(ExcerptView),
}

impl View for Resolution {
    type V = ResolutionView;

    open spec fn view(&self) -> ResolutionView {
        match self {
            Resolution::Waiting => ResolutionView::Waiting,
            Resolution::Failed => ResolutionView::Failed,
            Resolution::Loaded(excerpt) => ResolutionView::Loaded(excerpt@),
        }
    }
}

/// The outcome of resolving one hit: the excerpt, or nothing where the
/// resolution failed.
pub open spec fn outcome_view(outcome: Option<CodebaseExcerpt>) -> Option<ExcerptView> {
    match outcome {
        Some(excerpt) => Some(excerpt@),
        None => None,
    }
}

/// The resolution that an outcome amounts to.
pub open spec fn settled(outcome: Option<ExcerptView>) -> ResolutionView {
    match outcome {
        Some(excerpt) => ResolutionView::Loaded(excerpt),
        None => ResolutionView::Failed,
    }
}

/// The resolutions of a search that returned `hits` hits, before any
/// outcome has arrived.
pub open spec fn unresolved(hits: nat) -> Seq<ResolutionView> {
    Seq::new(hits, |i: int| ResolutionView::Waiting)
}

/// Whether an outcome for the hit `index` is still awaited.
pub open spec fn awaits(slots: Seq<ResolutionView>, index: int) -> bool {
    0 <= index < slots.len() && slots[index] is Waiting
}

/// `slots` once `outcome` has arrived for the hit `index`. An outcome that
/// is not awaited changes nothing.
pub open spec fn resolved(slots: Seq<ResolutionView>, index: int, outcome: Option<ExcerptView>) -> Seq<
    ResolutionView,
> {
    if awaits(slots, index) {
        slots.update(index, settled(outcome))
    } else {
        slots
    }
}

/// Whether every hit has its outcome.
pub open spec fn complete(slots: Seq<ResolutionView>) -> bool {
    forall|i: int| 0 <= i < slots.len() ==> !((#[trigger] slots[i]) is Waiting)
}

/// The excerpts that have arrived, in the order of their hits.
pub open spec fn loaded(slots: Seq<ResolutionView>) -> Seq<ExcerptView>
    decreases slots.len(),
{
    if slots.len() == 0 {
        Seq::empty()
    } else {
        match slots.last() {
            ResolutionView::Loaded(excerpt) => loaded(slots.drop_last()).push(excerpt),
            _ => loaded(slots.drop_last()),
        }
    }
}

/// Collects the outcomes of resolving the hits of one search.
#[derive(Debug)]
pub struct ExcerptCollector {
    slots: Vec<Resolution>,
}

impl View for ExcerptCollector {
    type V = Seq<ResolutionView>;

    closed spec fn view(&self) -> Seq<ResolutionView> {
        views(self.slots@)
    }
}

impl ExcerptCollector {
    /// A collector for a search that returned `hits` hits, none of them
    /// resolved yet.
    pub fn new(hits: usize) -> (collector: Self)
        ensures
            collector@ == unresolved(hits as nat),
    {
        let mut slots: Vec<Resolution> = Vec::new();
        let mut i: usize = 0;
        while i < hits
            invariant
                i <= hits,
                views(slots@) == unresolved(i as nat),
            decreases hits - i,
        {
            let ghost before = slots@;
            slots.push(Resolution::Waiting);
            i += 1;
            proof {
                assert(views(slots@) =~= views(before).push(ResolutionView::Waiting));
                assert(views(slots@) =~= unresolved(i as nat));
            }
        }
        ExcerptCollector { slots }
    }

    /// How many hits the search returned.
    pub fn len(&self) -> (hits: usize)
        ensures
            hits == self@.len(),
    {
        self.slots.len()
    }

    /// Records the outcome of resolving the hit `index`: the excerpt, or
    /// nothing where the resolution failed. Returns whether the outcome was
    /// awaited; one that was not is dropped.
    pub fn resolve(&mut self, index: usize, outcome: Option<CodebaseExcerpt>) -> (accepted: bool)
        ensures
            accepted == awaits(old(self)@, index as int),
            final(self)@ == resolved(old(self)@, index as int, outcome_view(outcome)),
    {
        if index >= self.slots.len() {
            return false;
        }
        let waiting = match &self.slots[index] {
            Resolution::Waiting => true,
            _ => false,
        };
        if !waiting {
            return false;
        }
        let resolution = match outcome {
            Some(excerpt) => Resolution::Loaded(excerpt),
            None => Resolution::Failed,
        };
        self.slots[index] = resolution;
        proof {
            assert(self@ =~= resolved(old(self)@, index as int, outcome_view(outcome)));
        }
        true
    }

    /// Whether every hit has its outcome.
    pub fn is_complete(&self) -> (done: bool)
        ensures
            done == complete(self@),
    {
        let mut i: usize = 0;
        while i < self.slots.len()
            invariant
                i <= self.slots.len(),
                forall|j: int| 0 <= j < i ==> !((#[trigger] self@[j]) is Waiting),
            decreases self.slots.len() - i,
        {
            match &self.slots[i] {
                Resolution::Waiting => {
                    assert(self@[i as int] is Waiting);
                    return false;
                },
                _ => {},
            }
            i += 1;
        }
        true
    }

    /// Once every hit has its outcome: the excerpts that arrived, in the
    /// order of their hits, without the hits whose resolution failed. Before
    /// that the collector is handed back as it is.
    pub fn into_excerpts(self) -> (result: Result<Vec<CodebaseExcerpt>, ExcerptCollector>)
        ensures
            match result {
                Ok(excerpts) => complete(self@) && views(excerpts@) == loaded(self@),
                Err(collector) => !complete(self@) && collector@ == self@,
            },
    {
        if !self.is_complete() {
            return Err(self);
        }
        let mut slots = self.slots;
        let ghost all = views(slots@);
        let mut excerpts: Vec<CodebaseExcerpt> = Vec::new();
        let mut i: usize = 0;
        while i < slots.len()
            invariant
                i <= slots.len(),
                slots.len() == all.len(),
                forall|j: int| i <= j < slots.len() ==> (#[trigger] slots[j])@ == all[j],
                views(excerpts@) == loaded(all.take(i as int)),
            decreases slots.len() - i,
        {
            let mut slot = Resolution::Failed;
            core::mem::swap(&mut slots[i], &mut slot);
            let ghost before = excerpts@;
            match slot {
                Resolution::Loaded(excerpt) => {
                    excerpts.push(excerpt);
                    proof {
                        assert(views(excerpts@) =~= views(before).push(excerpt@));
                    }
                },
                _ => {},
            }
            proof {
                assert(all.take(i + 1).drop_last() =~= all.take(i as int));
                assert(all.take(i + 1).last() == all[i as int]);
            }
            i += 1;
        }
        proof {
            assert(all.take(i as int) =~= all);
        }
        Ok(excerpts)
    }
}

} // verus!
