//! A cash machine: swipe a card, key in the PIN, key in an amount, and the
//! machine pays out if it holds that much.

use crate::hashing::{encoding_of_items, hash, spec_hash, Encode, EncodeView};
use crate::state_machine::StateMachine;
use vstd::prelude::*;

verus! {

/// The keys on the keypad.
#[derive(Clone, Copy, Debug, PartialEq, Eq, Hash, Structural)]
pub enum Key {
    One,
    Two,
    Three,
    Four,
    Enter,
}

impl Key {
    /// The digit that the key stands for in an amount. `Enter` counts as 0.
    pub open spec fn digit(self) -> nat {
        match self {
            Key::One => 1,
            Key::Two => 2,
            Key::Three => 3,
            Key::Four => 4,
            Key::Enter => 0,
        }
    }

    /// The byte that stands for the key where keystrokes are hashed.
    pub open spec fn tag(self) -> u8 {
        match self {
            Key::One => 0,
            Key::Two => 1,
            Key::Three => 2,
            Key::Four => 3,
            Key::Enter => 4,
        }
    }
}

impl Encode for Key {
    open spec fn encoding(&self) -> Seq<u8> {
        seq![self.tag()]
    }

    fn encode(&self, out: &mut Vec<u8>) {
        let tag: u8 = match self {
            Key::One => 0,
            Key::Two => 1,
            Key::Three => 2,
            Key::Four => 3,
            Key::Enter => 4,
        };
        out.push(tag);
        assert(out@ == old(out)@ + seq![tag]);
    }
}

/// Something that a user does to the machine.
#[derive(Clone, Copy, Debug, PartialEq, Eq, Structural)]
pub enum Action {
    /// Swipe a card. The value is the hash of the PIN that belongs to it.
    SwipeCard(u64),
    /// Press a key.
    PressKey(Key),
}

/// How far the user has come in proving who they are.
#[derive(Clone, Copy, Debug, PartialEq, Eq, Structural)]
pub enum Auth {
    /// No card has been swiped.
    Waiting,
    /// A card with this PIN hash has been swiped, and the PIN is awaited.
    Authenticating(u64),
    /// The PIN was right, and the amount is awaited.
    Authenticated,
}

impl Encode for Auth {
    /// A byte that tells the stage, then the PIN hash where one is awaited.
    open spec fn encoding(&self) -> Seq<u8> {
        match self {
            Auth::Waiting => seq![0u8],
            Auth::Authenticating(pin) => seq![1u8] + pin.encoding(),
            Auth::Authenticated => seq![2u8],
        }
    }

    fn encode(&self, out: &mut Vec<u8>) {
        match self {
            Auth::Waiting => {
                out.push(0);
                assert(out@ == old(out)@ + seq![0u8]);
            },
            Auth::Authenticating(pin) => {
                out.push(1);
                assert(out@ == old(out)@ + seq![1u8]);
                pin.encode(out);
                assert(out@ == old(out)@ + (seq![1u8] + pin.encoding()));
            },
            Auth::Authenticated => {
                out.push(2);
                assert(out@ == old(out)@ + seq![2u8]);
            },
        }
    }
}

/// The machine.
#[derive(Clone, Debug, PartialEq, Eq)]
pub struct Atm {
    /// The money in the machine.
    pub cash_inside: u64,
    /// Where the user stands.
    pub expected_pin_hash: Auth,
    /// The keys pressed since the last `Enter`.
    pub keystroke_register: Vec<Key>,
}

/// The machine as a value: the keys pressed are a sequence.
pub ghost struct AtmView {
    pub cash_inside: u64,
    pub expected_pin_hash: Auth,
    pub keystroke_register: Seq<Key>,
}

impl View for Atm {
    type V = AtmView;

    open spec fn view(&self) -> AtmView {
        AtmView {
            cash_inside: self.cash_inside,
            expected_pin_hash: self.expected_pin_hash,
            keystroke_register: self.keystroke_register@,
        }
    }
}

impl Encode for Atm {
    open spec fn encoding(&self) -> Seq<u8> {
        self.cash_inside.encoding() + self.expected_pin_hash.encoding()
            + self.keystroke_register.encoding()
    }

    fn encode(&self, out: &mut Vec<u8>) {
        self.cash_inside.encode(out);
        self.expected_pin_hash.encode(out);
        self.keystroke_register.encode(out);
    }
}

impl EncodeView for Atm {
    open spec fn encoding_of(view: AtmView) -> Seq<u8> {
        view.cash_inside.encoding() + view.expected_pin_hash.encoding() + encoding_of_items(
            view.keystroke_register,
        )
    }

    proof fn lemma_encoding_of_view(&self) {
    }
}

/// The hash of a run of keystrokes, as `hash` gives it for a vector of them.
pub open spec fn pin_hash(keys: Seq<Key>) -> u64 {
    spec_hash(encoding_of_items(keys))
}

/// The amount that a run of keystrokes spells in decimal.
pub open spec fn amount_keyed(keys: Seq<Key>) -> nat
    decreases keys.len(),
{
    if keys.len() == 0 {
        0
    } else {
        amount_keyed(keys.drop_last()) * 10 + keys.last().digit()
    }
}

/// More keystrokes never spell less.
pub proof fn lemma_amount_grows(keys: Seq<Key>, shorter: int)
    requires
        0 <= shorter <= keys.len(),
    ensures
        amount_keyed(keys.take(shorter)) <= amount_keyed(keys),
    decreases keys.len(),
{
    if shorter == keys.len() {
        assert(keys.take(shorter) == keys);
    } else {
        lemma_amount_grows(keys.drop_last(), shorter);
        assert(keys.drop_last().take(shorter) == keys.take(shorter));
    }
}

/// What is left of `cash` after paying out the amount that `keys` spell:
/// all of it where the amount is more than the machine holds.
pub open spec fn cash_after(cash: u64, keys: Seq<Key>) -> u64 {
    if amount_keyed(keys) > cash {
        cash
    } else {
        (cash - amount_keyed(keys)) as u64
    }
}

/// Pays out of `cash` the amount that `keys` spell, if the machine holds it.
pub fn withdraw(cash: u64, keys: &Vec<Key>) -> (left: u64)
    ensures
        left == cash_after(cash, keys@),
{
    let mut amount: u64 = 0;
    let mut i: usize = 0;
    while i < keys.len()
        invariant
            i <= keys.len(),
            amount == amount_keyed(keys@.take(i as int)),
            amount <= cash,
        decreases keys.len() - i,
    {
        let digit: u64 = match keys[i] {
            Key::One => 1,
            Key::Two => 2,
            Key::Three => 3,
            Key::Four => 4,
            Key::Enter => 0,
        };
        proof {
            let next = keys@.take(i + 1);
            assert(next.drop_last() == keys@.take(i as int));
            assert(next.last() == keys@[i as int]);
            lemma_amount_grows(keys@, i + 1);
        }
        let longer: u128 = (amount as u128) * 10 + (digit as u128);
        if longer > cash as u128 {
            return cash;
        }
        amount = longer as u64;
        i += 1;
    }
    assert(keys@.take(i as int) == keys@);
    cash - amount
}

impl StateMachine for Atm {
    type State = Atm;

    type Transition = Action;

    /// A swiped card starts over with the card's PIN hash and keeps the keys
    /// pressed so far. A key other than `Enter` is taken down once a card
    /// has been swiped. `Enter` ends the entry: a right PIN lets the user
    /// in; after that the amount keyed is paid out if the machine holds it,
    /// and the user is out again; anything else sends the user away.
    open spec fn next(starting: AtmView, t: Action) -> AtmView {
        match t {
            Action::SwipeCard(pin) => AtmView {
                cash_inside: starting.cash_inside,
                expected_pin_hash: Auth::Authenticating(pin),
                keystroke_register: starting.keystroke_register,
            },
            Action::PressKey(Key::Enter) => match starting.expected_pin_hash {
                Auth::Authenticating(pin) => AtmView {
                    cash_inside: starting.cash_inside,
                    expected_pin_hash: if pin == pin_hash(starting.keystroke_register) {
                        Auth::Authenticated
                    } else {
                        Auth::Waiting
                    },
                    keystroke_register: Seq::empty(),
                },
                Auth::Authenticated => AtmView {
                    cash_inside: cash_after(starting.cash_inside, starting.keystroke_register),
                    expected_pin_hash: Auth::Waiting,
                    keystroke_register: Seq::empty(),
                },
                Auth::Waiting => AtmView {
                    cash_inside: starting.cash_inside,
                    expected_pin_hash: Auth::Waiting,
                    keystroke_register: Seq::empty(),
                },
            },
            Action::PressKey(key) => AtmView {
                cash_inside: starting.cash_inside,
                expected_pin_hash: starting.expected_pin_hash,
                keystroke_register: if starting.expected_pin_hash is Waiting {
                    starting.keystroke_register
                } else {
                    starting.keystroke_register.push(key)
                },
            },
        }
    }

    fn next_state(starting_state: &Atm, t: &Action) -> (next: Atm) {
        match t {
            Action::SwipeCard(pin) => Atm {
                cash_inside: starting_state.cash_inside,
                expected_pin_hash: Auth::Authenticating(*pin),
                keystroke_register: starting_state.keystroke_register.clone(),
            },
            Action::PressKey(Key::Enter) => {
                match starting_state.expected_pin_hash {
                    Auth::Authenticating(pin) => {
                        let entered = hash(&starting_state.keystroke_register);
                        Atm {
                            cash_inside: starting_state.cash_inside,
                            expected_pin_hash: if pin == entered {
                                Auth::Authenticated
                            } else {
                                Auth::Waiting
                            },
                            keystroke_register: Vec::new(),
                        }
                    },
                    Auth::Authenticated => Atm {
                        cash_inside: withdraw(
                            starting_state.cash_inside,
                            &starting_state.keystroke_register,
                        ),
                        expected_pin_hash: Auth::Waiting,
                        keystroke_register: Vec::new(),
                    },
                    Auth::Waiting => Atm {
                        cash_inside: starting_state.cash_inside,
                        expected_pin_hash: Auth::Waiting,
                        keystroke_register: Vec::new(),
                    },
                }
            },
            Action::PressKey(key) => {
                let mut keys = starting_state.keystroke_register.clone();
                match starting_state.expected_pin_hash {
                    Auth::Waiting => {},
                    _ => {
                        keys.push(*key);
                    },
                }
                Atm {
                    cash_inside: starting_state.cash_inside,
                    expected_pin_hash: starting_state.expected_pin_hash,
                    keystroke_register: keys,
                }
            },
        }
    }
}

} // verus!
