//! Retrieved material attached to a user turn.

use vstd::prelude::*;
use crate::ids::ContextId;

verus! {

/// The sequence of views of the items of `items`, in order.
pub open spec fn views<T: View>(items: Seq<T>) -> Seq<T::V> {
    Seq::new(items.len(), |i: int| items[i]@)
}

/// A scored snippet of source material. The relevance score is carried as
/// the bit pattern of the single-precision number the search produced; the
/// engine never computes with it.
#[derive(Debug)]
pub struct CodebaseExcerpt {
    pub path: String,
    pub text: String,
    pub score_bits: u32,
}

/// What a [`CodebaseExcerpt`] holds.
pub struct ExcerptView {
    pub path: Seq<char>,
    pub text: Seq<char>,
    pub score_bits: u32,
}

impl View for CodebaseExcerpt {
    type V = ExcerptView;

    open spec fn view(&self) -> ExcerptView {
        ExcerptView { path: self.path@, text: self.text@, score_bits: self.score_bits }
    }
}

/// Excerpts retrieved from the codebase for one submission. A context is
/// pending from its creation until it is populated.
#[derive(Debug)]
pub struct CodebaseContext {
    pub id: ContextId,
    pub excerpts: Vec<CodebaseExcerpt>,
    pub pending: bool,
}

/// What a [`CodebaseContext`] holds.
pub struct CodebaseContextView {
    pub id: ContextId,
    pub excerpts: Seq<ExcerptView>,
    pub pending: bool,
}

impl View for CodebaseContext {
    type V = CodebaseContextView;

    open spec fn view(&self) -> CodebaseContextView {
        CodebaseContextView { id: self.id, excerpts: views(self.excerpts@), pending: self.pending }
    }
}

impl CodebaseContextView {
    /// A context that still waits for its excerpts.
    pub open spec fn fresh(id: ContextId) -> CodebaseContextView {
        CodebaseContextView { id, excerpts: Seq::empty(), pending: true }
    }

    /// This context once `excerpts` have been stored in it.
    pub open spec fn populated(self, excerpts: Seq<ExcerptView>) -> CodebaseContextView {
        CodebaseContextView { id: self.id, excerpts, pending: false }
    }
}

impl CodebaseContext {
    /// Stores the retrieved excerpts and clears the pending mark.
    pub fn populate(&mut self, excerpts: Vec<CodebaseExcerpt>)
        ensures
            final(self)@ == old(self)@.populated(views(excerpts@)),
    {
        self.excerpts = excerpts;
        self.pending = false;
    }
}

/// Supplementary material attached to a user turn.
#[derive(Debug)]
pub enum AssistantContext {
    Codebase(CodebaseContext),
}

/// What an [`AssistantContext`] holds.
pub enum ContextView {
    Codebase(CodebaseContextView),
}

impl View for AssistantContext {
    type V = ContextView;

    open spec fn view(&self) -> ContextView {
        match self {
            AssistantContext::Codebase(context) => ContextView::Codebase(context@),
        }
    }
}

impl ContextView {
    /// The identifier of the context, whatever its kind.
    pub open spec fn id(self) -> ContextId {
        match self {
            ContextView::Codebase(context) => context.id,
        }
    }
}

impl AssistantContext {
    /// A codebase context that still waits for its excerpts.
    pub fn codebase(id: ContextId) -> (context: Self)
        ensures
            context@ == ContextView::Codebase(CodebaseContextView::fresh(id)),
    {
        let context = AssistantContext::Codebase(
            CodebaseContext { id, excerpts: Vec::new(), pending: true },
        );
        assert(views(Seq::<CodebaseExcerpt>::empty()) =~= Seq::<ExcerptView>::empty());
        context
    }
}

} // verus!
