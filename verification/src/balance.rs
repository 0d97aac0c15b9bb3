//! The balance of tags: every element that is opened is closed by the end of the
//! writing.
use crate::state::BuilderView;
use vstd::prelude::*;

verus! {

/// One call that works on the stack of open elements.
pub ghost enum TagCall {
    /// A call of `start_tag` with a name and attributes.
    Start(Seq<char>, Seq<(Seq<char>, Seq<char>)>),
    /// A call of `end_tag`.
    End,
}

/// The number of calls of `start_tag` among `calls`.
pub open spec fn starts(calls: Seq<TagCall>) -> nat
    decreases calls.len(),
{
    if calls.len() == 0 {
        0
    } else {
        starts(calls.drop_last()) + if calls.last() is Start {
            1nat
        } else {
            0nat
        }
    }
}

/// The number of calls of `end_tag` among `calls`.
pub open spec fn ends(calls: Seq<TagCall>) -> nat
    decreases calls.len(),
{
    if calls.len() == 0 {
        0
    } else {
        ends(calls.drop_last()) + if calls.last() is End {
            1nat
        } else {
            0nat
        }
    }
}

impl BuilderView {
    /// The state after the calls of `calls`, made in order, if each of them was
    /// permitted: `end_tag` is permitted only while an element is open.
    pub open spec fn after_calls(self, calls: Seq<TagCall>) -> Option<BuilderView>
        decreases calls.len(),
    {
        if calls.len() == 0 {
            Some(self)
        } else {
            match self.after_calls(calls.drop_last()) {
                Some(state) => match calls.last() {
                    TagCall::Start(name, attrs) => Some(state.start_tag(name, attrs)),
                    TagCall::End => if state.tag_stack.len() > 0 {
                        Some(state.end_tag())
                    } else {
                        None
                    },
                },
                None => None,
            }
        }
    }
}

/// After any permitted sequence of calls of `start_tag` and `end_tag`, the number of
/// open elements is what it was, plus the number of starts, minus the number of
/// ends.
pub proof fn lemma_open_tags_count(state: BuilderView, calls: Seq<TagCall>)
    requires
        state.after_calls(calls) is Some,
    ensures
        state.after_calls(calls)->0.tag_stack.len() == state.tag_stack.len() + starts(calls) - ends(
            calls,
        ),
    decreases calls.len(),
{
    if calls.len() > 0 {
        lemma_open_tags_count(state, calls.drop_last());
    }
}

/// Tags balance by the end of the writing. The page can be taken only while no
/// element is open; so if a serializer that started with no open element went
/// through a permitted sequence of calls of `start_tag` and `end_tag` and its page
/// can be taken, there were as many starts as ends. With more ends than starts a
/// call was not permitted, and with more starts than ends the page cannot be taken:
/// an imbalance never goes unnoticed.
pub proof fn lemma_tags_balance(calls: Seq<TagCall>)
    ensures
        BuilderView::empty().after_calls(calls) matches Some(state) && state.tag_stack.len() == 0
            ==> starts(calls) == ends(calls),
        starts(calls) < ends(calls) ==> BuilderView::empty().after_calls(calls) is None,
        starts(calls) > ends(calls) ==> (BuilderView::empty().after_calls(calls) matches Some(
            state,
        ) ==> state.tag_stack.len() > 0),
{
    if BuilderView::empty().after_calls(calls) is Some {
        lemma_open_tags_count(BuilderView::empty(), calls);
    }
}

} // verus!
