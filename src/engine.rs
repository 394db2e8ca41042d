use vstd::prelude::*;

use crate::roles::{action_of, role_at, role_index, HostAction, Role, ROLE_COUNT};

verus! {

/// Status byte that marks a "note off" (key released) message.
pub const NOTE_OFF: u8 = 128;

/// Where the engine stands: learning the role at an index, or dispatching.
#[derive(Clone, Copy, Debug, PartialEq, Eq, Structural)]
pub enum Phase {
    Learning(usize),
    Dispatching,
}

/// What one device message did to the engine.
#[derive(Clone, Copy, Debug, PartialEq, Eq, Structural)]
pub enum Outcome {
    /// A "note off" or a message without a data byte: nothing changed.
    Ignored,
    /// `role` learned `code`.
    Learned { role: Role, code: u8 },
    /// The code matched a learned role, whose action is to be performed.
    Dispatched(HostAction),
    /// The code matched no learned role.
    Unmatched,
}

/// A message is ignored when it has no data byte or is a "note off".
pub open spec fn is_ignored(msg: Seq<u8>) -> bool {
    msg.len() < 2 || msg[0] == NOTE_OFF
}

/// A message that drives the engine: a "note on" with a data byte.
pub open spec fn is_note_on(msg: Seq<u8>) -> bool {
    !is_ignored(msg)
}

/// Slot `i` is the first of `codes` that holds `key`.
pub open spec fn is_first_match(codes: Seq<u8>, key: u8, i: int) -> bool {
    0 <= i < codes.len() && codes[i] == key && forall|j: int| 0 <= j < i ==> codes[j] != key
}

/// Dispatch of `key` against the learned `codes`: the action of the first
/// role whose code equals `key`, if any.
pub open spec fn dispatch_of(codes: Seq<u8>, key: u8) -> Outcome {
    if exists|i: int| is_first_match(codes, key, i) {
        Outcome::Dispatched(action_of(role_at(choose|i: int| is_first_match(codes, key, i))))
    } else {
        Outcome::Unmatched
    }
}

/// The learned codes after one message.
pub open spec fn step_codes(codes: Seq<u8>, msg: Seq<u8>) -> Seq<u8> {
    if is_ignored(msg) || codes.len() >= ROLE_COUNT as int {
        codes
    } else {
        codes.push(msg[1])
    }
}

/// The outcome of one message.
pub open spec fn step_outcome(codes: Seq<u8>, msg: Seq<u8>) -> Outcome {
    if is_ignored(msg) {
        Outcome::Ignored
    } else if codes.len() < ROLE_COUNT as int {
        Outcome::Learned { role: role_at(codes.len() as int), code: msg[1] }
    } else {
        dispatch_of(codes, msg[1])
    }
}

/// The learned codes after a sequence of messages.
pub open spec fn run(codes: Seq<u8>, msgs: Seq<Seq<u8>>) -> Seq<u8>
    decreases msgs.len(),
{
    if msgs.len() == 0 {
        codes
    } else {
        step_codes(run(codes, msgs.drop_last()), msgs.last())
    }
}

/// The phase that a sequence of learned codes stands for.
pub open spec fn phase_of(codes: Seq<u8>) -> Phase {
    if codes.len() < ROLE_COUNT as int {
        Phase::Learning(codes.len() as usize)
    } else {
        Phase::Dispatching
    }
}

/// The data bytes of a sequence of messages.
pub open spec fn data_bytes(msgs: Seq<Seq<u8>>) -> Seq<u8> {
    Seq::new(msgs.len(), |i: int| msgs[i][1])
}

/// The learning and dispatch state machine. Its view is the sequence of
/// codes learned so far, slot `i` holding the code of the role at index `i`.
pub struct BindingEngine {
    codes: Vec<u8>,
}

impl View for BindingEngine {
    type V = Seq<u8>;

    closed spec fn view(&self) -> Seq<u8> {
        self.codes@
    }
}

impl BindingEngine {
    /// At most one code per role has been learned.
    pub open spec fn wf(&self) -> bool {
        self@.len() <= ROLE_COUNT as int
    }

    /// An engine that has learned nothing yet.
    pub fn new() -> (r: BindingEngine)
        ensures
            r.wf(),
            r@ == Seq::<u8>::empty(),
    {
        BindingEngine { codes: Vec::new() }
    }

    /// The current phase.
    pub fn phase(&self) -> (r: Phase)
        requires
            self.wf(),
        ensures
            r == phase_of(self@),
    {
        let n = self.codes.len();
        if n < ROLE_COUNT {
            Phase::Learning(n)
        } else {
            Phase::Dispatching
        }
    }

    /// The role whose code the next "note on" will learn, if any is left.
    pub fn expected_role(&self) -> (r: Option<Role>)
        requires
            self.wf(),
        ensures
            self@.len() < ROLE_COUNT as int ==> r == Some(role_at(self@.len() as int)),
            self@.len() >= ROLE_COUNT as int ==> r.is_none(),
    {
        let n = self.codes.len();
        if n < ROLE_COUNT {
            Some(Role::from_index(n))
        } else {
            None
        }
    }

    /// The code learned for `role`, if it has been learned.
    pub fn learned_code(&self, role: Role) -> (r: Option<u8>)
        requires
            self.wf(),
        ensures
            role_index(role) < self@.len() ==> r == Some(self@[role_index(role)]),
            role_index(role) >= self@.len() ==> r.is_none(),
    {
        let i = role.index();
        if i < self.codes.len() {
            Some(self.codes[i])
        } else {
            None
        }
    }

    /// Compares `key` with the learned codes in the fixed order and picks
    /// the first role that holds it.
    fn dispatch(&self, key: u8) -> (r: Outcome)
        requires
            self.wf(),
        ensures
            r == dispatch_of(self@, key),
    {
        let mut i: usize = 0;
        while i < self.codes.len()
            invariant
                i <= self.codes@.len(),
                self.codes@.len() <= ROLE_COUNT as int,
                forall|j: int| 0 <= j < i ==> self.codes@[j] != key,
            decreases self.codes@.len() - i,
        {
            if self.codes[i] == key {
                let role = Role::from_index(i);
                proof {
                    let c = choose|k: int| is_first_match(self@, key, k);
                    assert(is_first_match(self@, key, i as int));
                    lemma_first_match_unique(self@, key, c, i as int);
                }
                return Outcome::Dispatched(role.action());
            }
            i += 1;
        }
        proof {
            assert forall|k: int| !is_first_match(self@, key, k) by {
                if 0 <= k < self@.len() {
                    assert(self.codes@[k] != key);
                }
            }
        }
        Outcome::Unmatched
    }

    /// Handles one device message: ignores it, learns the next role's
    /// code from it, or dispatches its data byte.
    pub fn handle(&mut self, message: &[u8]) -> (r: Outcome)
        requires
            old(self).wf(),
        ensures
            final(self).wf(),
            final(self)@ == step_codes(old(self)@, message@),
            r == step_outcome(old(self)@, message@),
    {
        if message.len() < 2 || message[0] == NOTE_OFF {
            return Outcome::Ignored;
        }
        let code = message[1];
        let n = self.codes.len();
        if n < ROLE_COUNT {
            let role = Role::from_index(n);
            self.codes.push(code);
            Outcome::Learned { role, code }
        } else {
            self.dispatch(code)
        }
    }
}

/// At most one slot is the first to hold a key.
pub proof fn lemma_first_match_unique(codes: Seq<u8>, key: u8, i: int, j: int)
    requires
        is_first_match(codes, key, i),
        is_first_match(codes, key, j),
    ensures
        i == j,
{
    if i < j {
        assert(codes[i] != key);
    } else if j < i {
        assert(codes[j] != key);
    }
}

/// Learning from empty: while fewer than all roles are filled, each
/// "note on" learns its data byte for the next role in order.
proof fn lemma_learning_prefix(msgs: Seq<Seq<u8>>)
    requires
        msgs.len() <= ROLE_COUNT as int,
        forall|i: int| 0 <= i < msgs.len() ==> is_note_on(#[trigger] msgs[i]),
    ensures
        run(Seq::empty(), msgs) == data_bytes(msgs),
    decreases msgs.len(),
{
    if msgs.len() > 0 {
        let prefix = msgs.drop_last();
        assert forall|i: int| 0 <= i < prefix.len() implies is_note_on(#[trigger] prefix[i]) by {
            assert(prefix[i] == msgs[i]);
        }
        lemma_learning_prefix(prefix);
        assert(is_note_on(msgs[msgs.len() - 1]));
        assert(data_bytes(prefix).push(msgs.last()[1]) =~= data_bytes(msgs));
    }
}

/// Five "note on" messages, starting from an engine that has learned
/// nothing, fill the roles in the fixed order with their data bytes and
/// leave the engine dispatching.
pub proof fn lemma_five_note_ons_fill_all_roles(msgs: Seq<Seq<u8>>)
    requires
        msgs.len() == ROLE_COUNT as int,
        forall|i: int| 0 <= i < msgs.len() ==> is_note_on(#[trigger] msgs[i]),
    ensures
        phase_of(run(Seq::empty(), msgs)) == Phase::Dispatching,
        run(Seq::empty(), msgs).len() == ROLE_COUNT as int,
        forall|i: int|
            0 <= i < ROLE_COUNT as int ==> #[trigger] run(Seq::empty(), msgs)[i] == msgs[i][1],
{
    lemma_learning_prefix(msgs);
}

/// A "note off" message, in any phase, changes nothing and triggers no
/// action.
pub proof fn lemma_note_off_is_inert(codes: Seq<u8>, msg: Seq<u8>)
    requires
        codes.len() <= ROLE_COUNT as int,
        msg.len() >= 1,
        msg[0] == NOTE_OFF,
    ensures
        step_codes(codes, msg) == codes,
        step_outcome(codes, msg) == Outcome::Ignored,
{
}

/// While dispatching, a data byte equal to the code of role `i`, and to no
/// earlier role's code, triggers the action of role `i` and nothing else.
pub proof fn lemma_dispatch_first_holder(codes: Seq<u8>, msg: Seq<u8>, i: int)
    requires
        codes.len() == ROLE_COUNT as int,
        0 <= i < ROLE_COUNT as int,
        is_note_on(msg),
        msg[1] == codes[i],
        forall|j: int| 0 <= j < i ==> codes[j] != codes[i],
    ensures
        step_outcome(codes, msg) == Outcome::Dispatched(action_of(role_at(i))),
        step_codes(codes, msg) == codes,
{
    assert(is_first_match(codes, msg[1], i));
    let c = choose|k: int| is_first_match(codes, msg[1], k);
    lemma_first_match_unique(codes, msg[1], c, i);
}

/// When the first and third roles share a code, that code triggers the
/// first role's action and never the third's.
pub proof fn lemma_shadowing(codes: Seq<u8>, msg: Seq<u8>)
    requires
        codes.len() == ROLE_COUNT as int,
        codes[0] == codes[2],
        is_note_on(msg),
        msg[1] == codes[0],
    ensures
        step_outcome(codes, msg) == Outcome::Dispatched(action_of(role_at(0))),
        step_outcome(codes, msg) != Outcome::Dispatched(action_of(role_at(2))),
{
    lemma_dispatch_first_holder(codes, msg, 0);
}

/// A message shorter than two bytes is ignored in every phase.
pub proof fn lemma_short_message_is_ignored(codes: Seq<u8>, msg: Seq<u8>)
    requires
        codes.len() <= ROLE_COUNT as int,
        msg.len() < 2,
    ensures
        step_codes(codes, msg) == codes,
        step_outcome(codes, msg) == Outcome::Ignored,
{
}

/// Any number of "note off" messages leaves the learned codes, and so the
/// phase, as they were.
pub proof fn lemma_note_offs_never_advance(codes: Seq<u8>, msgs: Seq<Seq<u8>>)
    requires
        codes.len() <= ROLE_COUNT as int,
        forall|i: int| 0 <= i < msgs.len() ==> (#[trigger] msgs[i]).len() >= 1 && msgs[i][0] == NOTE_OFF,
    ensures
        run(codes, msgs) == codes,
        phase_of(run(codes, msgs)) == phase_of(codes),
    decreases msgs.len(),
{
    if msgs.len() > 0 {
        let prefix = msgs.drop_last();
        assert forall|i: int| 0 <= i < prefix.len() implies (#[trigger] prefix[i]).len() >= 1
            && prefix[i][0] == NOTE_OFF by {
            assert(prefix[i] == msgs[i]);
        }
        lemma_note_offs_never_advance(codes, prefix);
        assert(msgs[msgs.len() - 1][0] == NOTE_OFF);
    }
}

} // verus!
