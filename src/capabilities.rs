//! Capability sets that the virtual device advertises.
//!
//! The sets are evdev's `AttributeSet`s. Their contents are named as sets of
//! codes, and every operation used here says how it changes them.
use vstd::prelude::*;

use evdev::{AttributeSet, KeyCode, RelativeAxisCode};

verus! {

/// Number of relative axis codes the kernel defines (`REL_CNT`).
pub const REL_COUNT: u16 = 16;

/// Number of key and button codes the kernel defines (`KEY_CNT`).
pub const KEY_COUNT: u16 = 768;

/// Button code of the left button.
pub const BTN_LEFT: u16 = 0x110;

/// Button code of the right button.
pub const BTN_RIGHT: u16 = 0x111;

/// Button code of the middle button.
pub const BTN_MIDDLE: u16 = 0x112;

/// A set of relative axis codes, held in evdev's bit set.
#[verifier::external_body]
pub struct RelAxisSet {
    set: AttributeSet<RelativeAxisCode>,
}

/// A set of key and button codes, held in evdev's bit set.
#[verifier::external_body]
pub struct KeySet {
    set: AttributeSet<KeyCode>,
}

/// The relative axis codes held by `s`.
pub uninterp spec fn rel_axis_codes(s: RelAxisSet) -> Set<u16>;

/// The key codes held by `s`.
pub uninterp spec fn key_codes(s: KeySet) -> Set<u16>;

impl RelAxisSet {
    /// Relies on `AttributeSet::new`: the set starts with no bit set.
    #[verifier::external_body]
    fn empty() -> (r: RelAxisSet)
        ensures
            rel_axis_codes(r) == Set::<u16>::empty(),
    {
        RelAxisSet { set: AttributeSet::new() }
    }

    /// Relies on `AttributeSetRef::insert`: sets the bit of `code`, which is
    /// within the set's `REL_CNT` bits.
    #[verifier::external_body]
    fn insert(&mut self, code: u16)
        requires
            code < REL_COUNT,
        ensures
            rel_axis_codes(*final(self)) == rel_axis_codes(*old(self)).insert(code),
    {
        self.set.insert(RelativeAxisCode(code))
    }

    /// Relies on `AttributeSetRef::iter`: it yields the set bits, so it
    /// yields nothing exactly when no bit is set.
    #[verifier::external_body]
    fn is_empty(&self) -> (r: bool)
        ensures
            r == (rel_axis_codes(*self) == Set::<u16>::empty()),
    {
        self.set.iter().next().is_none()
    }

    /// Relies on `AttributeSetRef::iter`: it yields each set bit once, as
    /// the code whose index it is.
    #[verifier::external_body]
    pub fn codes(&self) -> (r: Vec<u16>)
        ensures
            r@.no_duplicates(),
            r@.to_set() == rel_axis_codes(*self),
    {
        self.set.iter().map(|c| c.0).collect()
    }

    /// The set of the codes in `codes`.
    pub fn from_codes(codes: &Vec<u16>) -> (r: RelAxisSet)
        requires
            forall|i: int| 0 <= i < codes@.len() ==> #[trigger] codes@[i] < REL_COUNT,
        ensures
            rel_axis_codes(r) == codes@.to_set(),
    {
        let mut s = RelAxisSet::empty();
        let mut i: usize = 0;
        while i < codes.len()
            invariant
                i <= codes@.len(),
                forall|j: int| 0 <= j < codes@.len() ==> #[trigger] codes@[j] < REL_COUNT,
                rel_axis_codes(s) == codes@.take(i as int).to_set(),
            decreases codes.len() - i,
        {
            s.insert(codes[i]);
            proof {
                lemma_take_to_set(codes@, i as int);
            }
            i = i + 1;
        }
        proof {
            assert(codes@.take(i as int) =~= codes@);
        }
        s
    }
}

impl KeySet {
    /// Relies on `AttributeSet::new`: the set starts with no bit set.
    #[verifier::external_body]
    fn empty() -> (r: KeySet)
        ensures
            key_codes(r) == Set::<u16>::empty(),
    {
        KeySet { set: AttributeSet::new() }
    }

    /// Relies on `AttributeSetRef::insert`: sets the bit of `code`, which is
    /// within the set's `KEY_CNT` bits.
    #[verifier::external_body]
    fn insert(&mut self, code: u16)
        requires
            code < KEY_COUNT,
        ensures
            key_codes(*final(self)) == key_codes(*old(self)).insert(code),
    {
        self.set.insert(KeyCode(code))
    }

    /// Relies on `AttributeSetRef::iter`: it yields the set bits, so it
    /// yields nothing exactly when no bit is set.
    #[verifier::external_body]
    fn is_empty(&self) -> (r: bool)
        ensures
            r == (key_codes(*self) == Set::<u16>::empty()),
    {
        self.set.iter().next().is_none()
    }

    /// Relies on `AttributeSetRef::iter`: it yields each set bit once, as
    /// the code whose index it is.
    #[verifier::external_body]
    pub fn codes(&self) -> (r: Vec<u16>)
        ensures
            r@.no_duplicates(),
            r@.to_set() == key_codes(*self),
    {
        self.set.iter().map(|c| c.0).collect()
    }

    /// The set of the codes in `codes`.
    pub fn from_codes(codes: &Vec<u16>) -> (r: KeySet)
        requires
            forall|i: int| 0 <= i < codes@.len() ==> #[trigger] codes@[i] < KEY_COUNT,
        ensures
            key_codes(r) == codes@.to_set(),
    {
        let mut s = KeySet::empty();
        let mut i: usize = 0;
        while i < codes.len()
            invariant
                i <= codes@.len(),
                forall|j: int| 0 <= j < codes@.len() ==> #[trigger] codes@[j] < KEY_COUNT,
                key_codes(s) == codes@.take(i as int).to_set(),
            decreases codes.len() - i,
        {
            s.insert(codes[i]);
            proof {
                lemma_take_to_set(codes@, i as int);
            }
            i = i + 1;
        }
        proof {
            assert(codes@.take(i as int) =~= codes@);
        }
        s
    }
}

/// One more element taken adds that element to the set.
proof fn lemma_take_to_set(s: Seq<u16>, i: int)
    requires
        0 <= i < s.len(),
    ensures
        s.take(i + 1).to_set() == s.take(i).to_set().insert(s[i]),
{
    let a = s.take(i + 1);
    let b = s.take(i);
    assert forall|x: u16| a.to_set().contains(x) == b.to_set().insert(s[i]).contains(x) by {
        if a.to_set().contains(x) {
            let k = choose|k: int| 0 <= k < a.len() && a[k] == x;
            if k < i {
                assert(b[k] == x);
            }
        }
        if b.to_set().contains(x) {
            let k = choose|k: int| 0 <= k < b.len() && b[k] == x;
            assert(a[k] == x);
        }
        if x == s[i] {
            assert(a[i] == x);
        }
    }
    assert(a.to_set() =~= b.to_set().insert(s[i]));
}

/// The relative axes advertised when the device reports none: X, Y, wheel.
pub open spec fn default_rel_axis_codes() -> Set<u16> {
    set![crate::engine::REL_X, crate::engine::REL_Y, crate::engine::REL_WHEEL]
}

/// The buttons advertised when the device reports none: left, right, middle.
pub open spec fn default_key_codes() -> Set<u16> {
    set![BTN_LEFT, BTN_RIGHT, BTN_MIDDLE]
}

/// The default relative axes: X, Y and the wheel.
pub fn default_rel_axes() -> (r: RelAxisSet)
    ensures
        rel_axis_codes(r) == default_rel_axis_codes(),
{
    let mut s = RelAxisSet::empty();
    s.insert(crate::engine::REL_X);
    s.insert(crate::engine::REL_Y);
    s.insert(crate::engine::REL_WHEEL);
    proof {
        assert(rel_axis_codes(s) =~= default_rel_axis_codes());
    }
    s
}

/// The default buttons: left, right and middle.
pub fn default_keys() -> (r: KeySet)
    ensures
        key_codes(r) == default_key_codes(),
{
    let mut s = KeySet::empty();
    s.insert(BTN_LEFT);
    s.insert(BTN_RIGHT);
    s.insert(BTN_MIDDLE);
    proof {
        assert(key_codes(s) =~= default_key_codes());
    }
    s
}

/// The relative axes to advertise: those the device reported, or the
/// defaults where it reported none or an empty set.
pub fn rel_axes_or_default(reported: Option<RelAxisSet>) -> (r: RelAxisSet)
    ensures
        rel_axis_codes(r) == match reported {
            Some(s) => if rel_axis_codes(s) == Set::<u16>::empty() {
                default_rel_axis_codes()
            } else {
                rel_axis_codes(s)
            },
            None => default_rel_axis_codes(),
        },
{
    match reported {
        Some(s) => if s.is_empty() {
            default_rel_axes()
        } else {
            s
        },
        None => default_rel_axes(),
    }
}

/// The keys to advertise: those the device reported, or the defaults where
/// it reported none or an empty set.
pub fn keys_or_default(reported: Option<KeySet>) -> (r: KeySet)
    ensures
        key_codes(r) == match reported {
            Some(s) => if key_codes(s) == Set::<u16>::empty() {
                default_key_codes()
            } else {
                key_codes(s)
            },
            None => default_key_codes(),
        },
{
    match reported {
        Some(s) => if s.is_empty() {
            default_keys()
        } else {
            s
        },
        None => default_keys(),
    }
}

} // verus!
