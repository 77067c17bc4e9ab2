//! IndexedDB keys and key ranges.
//!
//! A key is held in its stored form, a byte string whose lexicographic order is the order of keys.

use vstd::prelude::*;

verus! {

/// `a` comes strictly before `b` in lexicographic byte order.
pub open spec fn key_lt(a: Seq<u8>, b: Seq<u8>) -> bool
    decreases a.len(),
{
    if b.len() == 0 {
        false
    } else if a.len() == 0 {
        true
    } else if a[0] != b[0] {
        a[0] < b[0]
    } else {
        key_lt(a.drop_first(), b.drop_first())
    }
}

/// `a` comes before `b` or equals it.
pub open spec fn key_le(a: Seq<u8>, b: Seq<u8>) -> bool {
    a == b || key_lt(a, b)
}

/// No key comes before itself.
pub proof fn key_lt_irreflexive(a: Seq<u8>)
    ensures
        !key_lt(a, a),
    decreases a.len(),
{
    if a.len() > 0 {
        key_lt_irreflexive(a.drop_first());
    }
}

/// The order of keys is transitive.
pub proof fn key_lt_transitive(a: Seq<u8>, b: Seq<u8>, c: Seq<u8>)
    requires
        key_lt(a, b),
        key_lt(b, c),
    ensures
        key_lt(a, c),
    decreases a.len(),
{
    if a.len() > 0 && a[0] == b[0] && b[0] == c[0] {
        key_lt_transitive(a.drop_first(), b.drop_first(), c.drop_first());
    }
}

/// Of two keys, one comes before the other or they are equal.
pub proof fn key_order_total(a: Seq<u8>, b: Seq<u8>)
    ensures
        key_lt(a, b) || key_lt(b, a) || a == b,
    decreases a.len(),
{
    if a.len() == 0 || b.len() == 0 {
        assert(a.len() == 0 && b.len() == 0 ==> a =~= b);
    } else if a[0] == b[0] {
        key_order_total(a.drop_first(), b.drop_first());
        if a.drop_first() == b.drop_first() {
            assert(a =~= seq![a[0]] + a.drop_first());
            assert(b =~= seq![b[0]] + b.drop_first());
        }
    }
}

/// Two keys do not each come before the other.
pub proof fn key_lt_asymmetric(a: Seq<u8>, b: Seq<u8>)
    requires
        key_lt(a, b),
    ensures
        !key_lt(b, a),
        a != b,
{
    if key_lt(b, a) {
        key_lt_transitive(a, b, a);
    }
    key_lt_irreflexive(a);
}

/// How one key stands to another.
#[derive(Clone, Copy, Debug, PartialEq, Eq, Structural)]
pub enum KeyOrder {
    Less,
    Equal,
    Greater,
}

/// The relation of `a` to `b` in the order of keys.
pub open spec fn key_order(a: Seq<u8>, b: Seq<u8>) -> KeyOrder {
    if key_lt(a, b) {
        KeyOrder::Less
    } else if a == b {
        KeyOrder::Equal
    } else {
        KeyOrder::Greater
    }
}

/// Compares two stored keys.
pub fn order_of(a: &Vec<u8>, b: &Vec<u8>) -> (order: KeyOrder)
    ensures
        order == key_order(a@, b@),
        order is Greater <==> key_lt(b@, a@),
{
    order_of_slices(a.as_slice(), b.as_slice())
}

/// Compares two byte strings.
pub fn order_of_slices(a: &[u8], b: &[u8]) -> (order: KeyOrder)
    ensures
        order == key_order(a@, b@),
        order is Greater <==> key_lt(b@, a@),
{
    let mut i: usize = 0;
    assert(a@.skip(0) =~= a@ && b@.skip(0) =~= b@);
    while i < a.len() && i < b.len()
        invariant
            i <= a.len(),
            i <= b.len(),
            a@.take(i as int) == b@.take(i as int),
            key_lt(a@, b@) == key_lt(a@.skip(i as int), b@.skip(i as int)),
            key_lt(b@, a@) == key_lt(b@.skip(i as int), a@.skip(i as int)),
        decreases a.len() - i,
    {
        let ghost rest_a = a@.skip(i as int);
        let ghost rest_b = b@.skip(i as int);
        assert(rest_a[0] == a[i as int] && rest_b[0] == b[i as int]);
        if a[i] != b[i] {
            assert(a@ != b@);
            return if a[i] < b[i] {
                KeyOrder::Less
            } else {
                KeyOrder::Greater
            };
        }
        assert(rest_a.drop_first() =~= a@.skip(i + 1));
        assert(rest_b.drop_first() =~= b@.skip(i + 1));
        assert(a@.take(i + 1) =~= a@.take(i as int).push(a[i as int]));
        assert(b@.take(i + 1) =~= b@.take(i as int).push(b[i as int]));
        i += 1;
    }
    if a.len() == b.len() {
        assert(a@.take(i as int) =~= a@);
        assert(b@.take(i as int) =~= b@);
        proof {
            key_lt_irreflexive(a@);
        }
        KeyOrder::Equal
    } else if a.len() < b.len() {
        assert(a@.skip(i as int).len() == 0 && b@.skip(i as int).len() > 0);
        KeyOrder::Less
    } else {
        assert(b@.skip(i as int).len() == 0 && a@.skip(i as int).len() > 0);
        KeyOrder::Greater
    }
}

/// A copy of a byte string.
pub fn copy_bytes(bytes: &Vec<u8>) -> (copy: Vec<u8>)
    ensures
        copy@ == bytes@,
{
    let copy = bytes.clone();
    assert(copy@ =~= bytes@);
    copy
}

/// A key in the form in which it is stored.
#[derive(Debug)]
pub struct IndexedDBKeyType {
    pub encoded: Vec<u8>,
}

impl View for IndexedDBKeyType {
    type V = Seq<u8>;

    open spec fn view(&self) -> Seq<u8> {
        self.encoded@
    }
}

impl Clone for IndexedDBKeyType {
    fn clone(&self) -> (copy: Self)
        ensures
            copy@ == self@,
    {
        IndexedDBKeyType { encoded: copy_bytes(&self.encoded) }
    }
}

impl IndexedDBKeyType {
    /// How this key stands to `other`.
    pub fn order(&self, other: &Self) -> (order: KeyOrder)
        ensures
            order == key_order(self@, other@),
            order is Greater <==> key_lt(other@, self@),
    {
        order_of(&self.encoded, &other.encoded)
    }

    /// Whether the two keys are equal.
    pub fn same(&self, other: &Self) -> (same: bool)
        ensures
            same == (self@ == other@),
    {
        let order = self.order(other);
        proof {
            key_lt_irreflexive(self@);
        }
        order == KeyOrder::Equal
    }

    /// Whether this key comes before `other`.
    pub fn before(&self, other: &Self) -> (before: bool)
        ensures
            before == key_lt(self@, other@),
    {
        self.order(other) == KeyOrder::Less
    }

    /// Whether this key comes before `other` or equals it.
    pub fn at_or_before(&self, other: &Self) -> (before: bool)
        ensures
            before == key_le(self@, other@),
    {
        self.order(other) != KeyOrder::Greater
    }
}

/// What an optional key holds.
pub open spec fn option_key(key: Option<IndexedDBKeyType>) -> Option<Seq<u8>> {
    match key {
        Some(key) => Some(key@),
        None => None,
    }
}

/// A copy of an optional key.
pub fn copy_option_key(key: &Option<IndexedDBKeyType>) -> (copy: Option<IndexedDBKeyType>)
    ensures
        option_key(copy) == option_key(*key),
{
    match key {
        Some(key) => Some(key.clone()),
        None => None,
    }
}

/// Whether two optional keys are equal.
pub fn same_option_key(
    a: &Option<IndexedDBKeyType>,
    b: &Option<IndexedDBKeyType>,
) -> (same: bool)
    ensures
        same == (option_key(*a) == option_key(*b)),
{
    match (a, b) {
        (Some(a), Some(b)) => a.same(b),
        (None, None) => true,
        _ => false,
    }
}

/// A range of keys. An absent bound leaves that side unbounded.
#[derive(Debug)]
pub struct IndexedDBKeyRange {
    pub lower: Option<IndexedDBKeyType>,
    pub upper: Option<IndexedDBKeyType>,
    pub lower_open: bool,
    pub upper_open: bool,
}

/// The bounds of a range, by what they hold.
pub struct RangeView {
    pub lower: Option<Seq<u8>>,
    pub upper: Option<Seq<u8>>,
    pub lower_open: bool,
    pub upper_open: bool,
}

impl RangeView {
    /// The key lies in the range.
    pub open spec fn covers(self, key: Seq<u8>) -> bool {
        &&& match self.lower {
            Some(lower) => if self.lower_open {
                key_lt(lower, key)
            } else {
                key_le(lower, key)
            },
            None => true,
        }
        &&& match self.upper {
            Some(upper) => if self.upper_open {
                key_lt(key, upper)
            } else {
                key_le(key, upper)
            },
            None => true,
        }
    }

    /// The range names one key: both bounds are closed and equal.
    pub open spec fn is_singleton(self) -> bool {
        self.lower is Some && self.lower == self.upper && !self.lower_open && !self.upper_open
    }
}

impl View for IndexedDBKeyRange {
    type V = RangeView;

    open spec fn view(&self) -> RangeView {
        RangeView {
            lower: option_key(self.lower),
            upper: option_key(self.upper),
            lower_open: self.lower_open,
            upper_open: self.upper_open,
        }
    }
}

impl Clone for IndexedDBKeyRange {
    fn clone(&self) -> (copy: Self)
        ensures
            copy@ == self@,
    {
        IndexedDBKeyRange {
            lower: copy_option_key(&self.lower),
            upper: copy_option_key(&self.upper),
            lower_open: self.lower_open,
            upper_open: self.upper_open,
        }
    }
}

impl Default for IndexedDBKeyRange {
    /// The range of all keys.
    fn default() -> (range: Self)
        ensures
            range@ == (RangeView { lower: None, upper: None, lower_open: false, upper_open: false }),
    {
        IndexedDBKeyRange { lower: None, upper: None, lower_open: false, upper_open: false }
    }
}

impl IndexedDBKeyRange {
    /// A range with the given bounds.
    pub fn new(
        lower: Option<IndexedDBKeyType>,
        upper: Option<IndexedDBKeyType>,
        lower_open: bool,
        upper_open: bool,
    ) -> (range: Self)
        ensures
            range@ == (RangeView {
                lower: option_key(lower),
                upper: option_key(upper),
                lower_open,
                upper_open,
            }),
    {
        IndexedDBKeyRange { lower, upper, lower_open, upper_open }
    }

    /// The range of one key.
    pub fn only(key: IndexedDBKeyType) -> (range: Self)
        ensures
            range@ == (RangeView {
                lower: Some(key@),
                upper: Some(key@),
                lower_open: false,
                upper_open: false,
            }),
    {
        let lower = key.clone();
        IndexedDBKeyRange { lower: Some(lower), upper: Some(key), lower_open: false, upper_open: false }
    }

    /// The range of the keys from `key` on.
    pub fn lower_bound(key: IndexedDBKeyType, open: bool) -> (range: Self)
        ensures
            range@ == (RangeView {
                lower: Some(key@),
                upper: None,
                lower_open: open,
                upper_open: false,
            }),
    {
        IndexedDBKeyRange { lower: Some(key), upper: None, lower_open: open, upper_open: false }
    }

    /// The one key that the range names, if it names one key.
    pub fn as_singleton(&self) -> (key: Option<&IndexedDBKeyType>)
        ensures
            key is Some <==> self@.is_singleton(),
            key matches Some(key) ==> self@.lower == Some(key@),
    {
        if !self.lower_open && !self.upper_open && same_option_key(&self.lower, &self.upper) {
            self.lower.as_ref()
        } else {
            None
        }
    }

    /// Whether the key lies in the range.
    pub fn contains(&self, key: &IndexedDBKeyType) -> (contained: bool)
        ensures
            contained == self@.covers(key@),
    {
        let above = match &self.lower {
            Some(lower) => if self.lower_open {
                lower.before(key)
            } else {
                lower.at_or_before(key)
            },
            None => true,
        };
        let below = match &self.upper {
            Some(upper) => if self.upper_open {
                key.before(upper)
            } else {
                key.at_or_before(upper)
            },
            None => true,
        };
        above && below
    }
}

/// The range of one key covers that key and no other.
pub proof fn only_covers_one_key(key: Seq<u8>, other: Seq<u8>)
    ensures
        (RangeView { lower: Some(key), upper: Some(key), lower_open: false, upper_open: false }).covers(
            other,
        ) <==> other == key,
{
    if key_lt(key, other) {
        key_lt_asymmetric(key, other);
    }
}

} // verus!
