//! The interactive triage state machine: one decision per item, driven by
//! single input characters, with help, re-prompting and early quit.

use vstd::prelude::*;

use crate::item::HandledHow;
use crate::item::HandledItem;
use crate::item::Item;

verus! {

/// What one input character asks for.
#[derive(Clone, Copy, Debug, PartialEq, Eq, Structural)]
pub enum Command {
    Decide(HandledHow),
    Skip,
    Help,
    Quit,
    Unknown,
}

/// The meaning of an input character: `d`, `e` and `n` decide, `s` skips,
/// `h` asks for help, `q` quits, anything else is unknown.
pub open spec fn spec_classify(c: char) -> Command {
    if c == 'd' {
        Command::Decide(HandledHow::Added)
    } else if c == 'e' {
        Command::Decide(HandledHow::NotFound)
    } else if c == 'n' {
        Command::Decide(HandledHow::NotFinished)
    } else if c == 's' {
        Command::Skip
    } else if c == 'h' {
        Command::Help
    } else if c == 'q' {
        Command::Quit
    } else {
        Command::Unknown
    }
}

pub fn classify(c: char) -> (r: Command)
    ensures
        r == spec_classify(c),
{
    if c == 'd' {
        Command::Decide(HandledHow::Added)
    } else if c == 'e' {
        Command::Decide(HandledHow::NotFound)
    } else if c == 'n' {
        Command::Decide(HandledHow::NotFinished)
    } else if c == 's' {
        Command::Skip
    } else if c == 'h' {
        Command::Help
    } else if c == 'q' {
        Command::Quit
    } else {
        Command::Unknown
    }
}

/// The accumulator threaded through the triage loop: decisions recorded so
/// far, items left for the next run, and whether the user quit.
#[derive(Debug)]
pub struct TriageState {
    pub handled: Vec<HandledItem>,
    pub remaining: Vec<Item>,
    pub quitting: bool,
}

/// The mathematical value of a [`TriageState`].
pub ghost struct TriageV {
    pub handled: Seq<HandledItem>,
    pub remaining: Seq<Item>,
    pub quitting: bool,
}

impl View for TriageState {
    type V = TriageV;

    open spec fn view(&self) -> TriageV {
        TriageV { handled: self.handled@, remaining: self.remaining@, quitting: self.quitting }
    }
}

impl TriageState {
    /// The state a run starts from: the ledger read at startup, nothing
    /// remaining, not quitting.
    pub fn new(handled: Vec<HandledItem>) -> (r: Self)
        ensures
            r@.handled == handled@,
            r@.remaining == Seq::<Item>::empty(),
            !r@.quitting,
    {
        TriageState { handled, remaining: Vec::new(), quitting: false }
    }
}

/// The ledger record that deciding `how` about `item` creates.
pub open spec fn spec_handle(item: Item, how: HandledHow) -> HandledItem {
    HandledItem { item_id: item.id, item_type: item.item_type, how }
}

/// One input character applied to the current item: the next state, and
/// whether the machine advances past the item.
pub open spec fn spec_step(st: TriageV, item: Item, c: char) -> (TriageV, bool) {
    match spec_classify(c) {
        Command::Decide(how) => (
            TriageV {
                handled: st.handled.push(spec_handle(item, how)),
                remaining: st.remaining,
                quitting: st.quitting,
            },
            true,
        ),
        Command::Skip => (
            TriageV {
                handled: st.handled,
                remaining: st.remaining.push(item),
                quitting: st.quitting,
            },
            true,
        ),
        Command::Quit => (
            TriageV { handled: st.handled, remaining: st.remaining.push(item), quitting: true },
            true,
        ),
        Command::Help => (st, false),
        Command::Unknown => (st, false),
    }
}

/// Why the same item is presented again.
#[derive(Debug, PartialEq, Eq, Structural)]
pub enum Notice {
    Help,
    Unknown,
}

/// What one step of the machine tells the caller: move on, or show the
/// given notice and ask about the same item again.
#[derive(Debug)]
pub enum StepResult {
    Advanced,
    Again(Item, Notice),
}

/// Apply one input character to the current item.
pub fn triage_step(st: &mut TriageState, item: Item, c: char) -> (r: StepResult)
    requires
        !old(st)@.quitting,
    ensures
        final(st)@ == spec_step(old(st)@, item, c).0,
        (r is Advanced) == spec_step(old(st)@, item, c).1,
        r matches StepResult::Again(it, n) ==> it == item && ((n is Help) == (spec_classify(c)
            is Help)),
{
    match classify(c) {
        Command::Decide(how) => {
            st.handled.push(item.handle(how));
            StepResult::Advanced
        },
        Command::Skip => {
            st.remaining.push(item);
            StepResult::Advanced
        },
        Command::Quit => {
            st.remaining.push(item);
            st.quitting = true;
            StepResult::Advanced
        },
        Command::Help => StepResult::Again(item, Notice::Help),
        Command::Unknown => StepResult::Again(item, Notice::Unknown),
    }
}

/// Pass an item through without prompting; used for every item once the
/// user has quit.
pub fn triage_auto(st: &mut TriageState, item: Item)
    requires
        old(st)@.quitting,
    ensures
        final(st)@.handled == old(st)@.handled,
        final(st)@.remaining == old(st)@.remaining.push(item),
        final(st)@.quitting,
{
    st.remaining.push(item);
}

/// The whole machine over a finite script of input characters: `None` means
/// the script ran out while an item still awaited input (the run aborts and
/// nothing is persisted).
pub open spec fn spec_run(st: TriageV, items: Seq<Item>, inputs: Seq<char>) -> Option<TriageV>
    decreases items.len(), inputs.len(),
{
    if items.len() == 0 {
        Some(st)
    } else if st.quitting {
        spec_run(
            TriageV {
                handled: st.handled,
                remaining: st.remaining.push(items[0]),
                quitting: st.quitting,
            },
            items.drop_first(),
            inputs,
        )
    } else if inputs.len() == 0 {
        None
    } else {
        let (st2, adv) = spec_step(st, items[0], inputs[0]);
        if adv {
            spec_run(st2, items.drop_first(), inputs.drop_first())
        } else {
            spec_run(st2, items, inputs.drop_first())
        }
    }
}

/// Run the triage machine over a working list and a script of inputs.
pub fn triage_run(st: TriageState, items: Vec<Item>, inputs: Vec<char>) -> (r: Option<TriageState>)
    ensures
        (r is Some) == (spec_run(st@, items@, inputs@) is Some),
        r matches Some(st2) ==> spec_run(st@, items@, inputs@) == Some(st2@),
{
    let mut cur_st = st;
    let mut rest = items;
    let mut ii: usize = 0;
    proof {
        assert(inputs@.skip(0) =~= inputs@);
    }
    while rest.len() > 0
        invariant
            ii <= inputs@.len(),
            spec_run(st@, items@, inputs@) == spec_run(
                cur_st@,
                rest@,
                inputs@.skip(ii as int),
            ),
        decreases rest@.len(),
    {
        let ghost rest_pre = rest@;
        let x = rest.remove(0);
        proof {
            assert(rest@ =~= rest_pre.drop_first());
            assert(rest_pre[0] == x);
        }
        if cur_st.quitting {
            let ghost pre = cur_st@;
            triage_auto(&mut cur_st, x);
            proof {
                assert(spec_run(pre, rest_pre, inputs@.skip(ii as int)) == spec_run(
                    cur_st@,
                    rest@,
                    inputs@.skip(ii as int),
                ));
            }
        } else {
            let mut cur = x;
            proof {
                assert(rest_pre =~= seq![cur] + rest@);
            }
            loop
                invariant_except_break
                    !cur_st@.quitting,
                    spec_run(st@, items@, inputs@) == spec_run(
                        cur_st@,
                        seq![cur] + rest@,
                        inputs@.skip(ii as int),
                    ),
                invariant
                    ii <= inputs@.len(),
                ensures
                    spec_run(st@, items@, inputs@) == spec_run(
                        cur_st@,
                        rest@,
                        inputs@.skip(ii as int),
                    ),
                decreases inputs@.len() - ii,
            {
                proof {
                    assert((seq![cur] + rest@).len() > 0);
                    assert((seq![cur] + rest@)[0] == cur);
                    assert((seq![cur] + rest@).drop_first() =~= rest@);
                }
                if ii >= inputs.len() {
                    proof {
                        assert(inputs@.skip(ii as int).len() == 0);
                        assert(spec_run(cur_st@, seq![cur] + rest@, inputs@.skip(ii as int))
                            is None);
                    }
                    return None;
                }
                let c = inputs[ii];
                ii += 1;
                let ghost pre = cur_st@;
                proof {
                    assert(inputs@.skip(ii - 1)[0] == inputs@[ii - 1]);
                    assert(inputs@.skip(ii - 1).drop_first() =~= inputs@.skip(ii as int));
                }
                match triage_step(&mut cur_st, cur, c) {
                    StepResult::Advanced => {
                        proof {
                            assert(spec_step(pre, cur, c).1);
                            assert(spec_run(pre, seq![cur] + rest@, inputs@.skip(ii - 1))
                                == spec_run(cur_st@, rest@, inputs@.skip(ii as int)));
                        }
                        break ;
                    },
                    StepResult::Again(it, _n) => {
                        proof {
                            assert(!spec_step(pre, cur, c).1);
                            assert(cur_st@ == pre);
                            assert(spec_run(pre, seq![cur] + rest@, inputs@.skip(ii - 1))
                                == spec_run(cur_st@, seq![it] + rest@, inputs@.skip(ii as int)));
                        }
                        cur = it;
                    },
                }
            }
        }
    }
    proof {
        assert(rest@.len() == 0);
        assert(spec_run(cur_st@, rest@, inputs@.skip(ii as int)) == Some(cur_st@));
    }
    Some(cur_st)
}

/// A run only augments the ledger: every decision recorded before triage
/// stays where it was, and new decisions follow it.
pub proof fn lemma_run_extends_ledger(st: TriageV, items: Seq<Item>, inputs: Seq<char>)
    ensures
        spec_run(st, items, inputs) matches Some(st2) ==> st.handled.is_prefix_of(st2.handled),
    decreases items.len(), inputs.len(),
{
    if items.len() == 0 {
        assert(st.handled =~= st.handled.subrange(0, st.handled.len() as int));
    } else if st.quitting {
        let st1 = TriageV {
            handled: st.handled,
            remaining: st.remaining.push(items[0]),
            quitting: st.quitting,
        };
        lemma_run_extends_ledger(st1, items.drop_first(), inputs);
    } else if inputs.len() == 0 {
    } else {
        let (st1, adv) = spec_step(st, items[0], inputs[0]);
        if adv {
            lemma_run_extends_ledger(st1, items.drop_first(), inputs.drop_first());
        } else {
            lemma_run_extends_ledger(st1, items, inputs.drop_first());
        }
        if spec_run(st, items, inputs) is Some {
            let st2 = spec_run(st, items, inputs)->0;
            assert(st1.handled == st.handled || st1.handled == st.handled.push(
                spec_handle(items[0], spec_classify(inputs[0])->Decide_0),
            ));
            assert(st.handled.is_prefix_of(st1.handled)) by {
                assert(st.handled =~= st.handled.subrange(0, st.handled.len() as int));
                if st1.handled != st.handled {
                    assert(st.handled =~= st1.handled.subrange(0, st.handled.len() as int));
                }
            }
            assert(st.handled =~= st2.handled.subrange(0, st.handled.len() as int));
        }
    }
}

/// Once the user has quit, every later item of the working list lands in
/// `remaining`, in order, and no new ledger entry is ever recorded.
pub proof fn lemma_quit_skips_rest(st: TriageV, items: Seq<Item>, inputs: Seq<char>)
    requires
        st.quitting,
    ensures
        spec_run(st, items, inputs) == Some(
            TriageV { handled: st.handled, remaining: st.remaining + items, quitting: true },
        ),
    decreases items.len(),
{
    if items.len() == 0 {
        assert(st.remaining + items =~= st.remaining);
        assert(st == (TriageV {
            handled: st.handled,
            remaining: st.remaining + items,
            quitting: true,
        }));
    } else {
        let st2 = TriageV {
            handled: st.handled,
            remaining: st.remaining.push(items[0]),
            quitting: true,
        };
        lemma_quit_skips_rest(st2, items.drop_first(), inputs);
        assert(st.remaining.push(items[0]) + items.drop_first() =~= st.remaining + items);
    }
}

} // verus!
