use vstd::prelude::*;
use vstd::arithmetic::power2::{lemma2_to64, lemma_pow2_strictly_increases, lemma_pow2_unfold, pow2};
use vstd::arithmetic::div_mod::{lemma_fundamental_div_mod, lemma_fundamental_div_mod_converse};
use std::marker::PhantomData;
use crate::text::{append_str, string_from_chars};

verus! {

/// Whether `r` is the smallest power of two that is at least `n`.
pub open spec fn smallest_pow2_at_least(r: nat, n: nat) -> bool {
    &&& exists|k: nat| r == pow2(k)
    &&& n <= r
    &&& forall|k: nat| n <= pow2(k) ==> r <= pow2(k)
}

/// The smallest power of two that is at least `n` (as `u32::next_power_of_two`
/// computes it; that function panics in debug builds when the power does not
/// fit, hence the bound).
fn next_power_of_two(n: u32) -> (r: u32)
    requires
        n <= 0x8000_0000,
    ensures
        smallest_pow2_at_least(r as nat, n as nat),
{
    let mut p: u32 = 1;
    let ghost mut k: nat = 0;
    proof {
        lemma2_to64();
    }
    while p < n
        invariant
            n <= 0x8000_0000,
            1 <= p,
            p as nat == pow2(k),
            forall|j: nat| j < k ==> #[trigger] pow2(j) < n,
        decreases 0x1_0000_0000 - p,
    {
        proof {
            lemma_pow2_unfold(k + 1);
        }
        p = p * 2;
        proof {
            k = k + 1;
        }
    }
    assert forall|j: nat| n <= #[trigger] pow2(j) implies p <= pow2(j) by {
        if k < j {
            lemma_pow2_strictly_increases(k, j);
        }
    }
    p
}

/// The engine's growable array: its elements and the number of slots it has
/// room for, which never passes `i32::MAX`.
pub struct TArray<T> {
    items: Vec<T>,
    max: usize,
}

impl<T> View for TArray<T> {
    type V = Seq<T>;

    closed spec fn view(&self) -> Seq<T> {
        self.items@
    }
}

impl<T> TArray<T> {
    /// The array holds no more than its room, and its room fits an `i32`.
    #[verifier::type_invariant]
    spec fn inv(self) -> bool {
        self.items@.len() <= self.max <= 0x7FFF_FFFF
    }

    /// The number of slots the array has room for.
    pub closed spec fn cap(self) -> nat {
        self.max as nat
    }

    /// An empty array with no room.
    pub fn new() -> (r: Self)
        ensures
            r@ == Seq::<T>::empty(),
            r.cap() == 0,
    {
        TArray { items: Vec::new(), max: 0 }
    }

    /// An empty array with room for `capacity` elements.
    pub fn with_capacity(capacity: usize) -> (r: Self)
        requires
            capacity <= 0x7FFF_FFFF,
        ensures
            r@ == Seq::<T>::empty(),
            r.cap() == capacity,
    {
        TArray { items: Vec::new(), max: capacity }
    }

    /// The number of elements.
    pub fn len(&self) -> (r: usize)
        ensures
            r == self@.len(),
    {
        self.items.len()
    }

    /// The number of slots the array has room for.
    pub fn capacity(&self) -> (r: usize)
        ensures
            r == self.cap(),
            self@.len() <= r <= 0x7FFF_FFFF,
    {
        proof {
            use_type_invariant(self);
        }
        self.max
    }

    /// Whether the array has no element.
    pub fn is_empty(&self) -> (r: bool)
        ensures
            r == (self@.len() == 0),
    {
        self.len() == 0
    }

    /// The elements, in order.
    pub fn as_slice(&self) -> (r: &[T])
        ensures
            r@ == self@,
    {
        self.items.as_slice()
    }

    /// Drops every element and keeps the room.
    pub fn clear(&mut self)
        ensures
            final(self)@ == Seq::<T>::empty(),
            final(self).cap() == old(self).cap(),
    {
        proof {
            use_type_invariant(&*self);
        }
        self.items = Vec::new();
    }

    /// Appends `new_value`. A full array first grows to the smallest power of
    /// two above its room; the bound keeps that room within `i32`.
    pub fn push(&mut self, new_value: T)
        requires
            old(self)@.len() < old(self).cap() || old(self).cap() < 0x4000_0000,
        ensures
            final(self)@ == old(self)@.push(new_value),
            old(self)@.len() < old(self).cap() ==> final(self).cap() == old(self).cap(),
            old(self)@.len() >= old(self).cap() ==> smallest_pow2_at_least(
                final(self).cap(),
                old(self).cap() + 1,
            ),
    {
        proof {
            use_type_invariant(&*self);
        }
        if self.items.len() >= self.max {
            let grown = next_power_of_two((self.max + 1) as u32);
            proof {
                lemma2_to64();
                assert(grown as nat <= pow2(30));
            }
            self.max = grown as usize;
        }
        let mut items: Vec<T> = Vec::new();
        std::mem::swap(&mut items, &mut self.items);
        items.push(new_value);
        self.items = items;
    }
}

impl<T: Copy> TArray<T> {
    /// An array holding a copy of `value`, with room for exactly its elements.
    pub fn from_slice(value: &[T]) -> (r: Self)
        requires
            value@.len() <= 0x7FFF_FFFF,
        ensures
            r@ == value@,
            r.cap() == value@.len(),
    {
        let mut items: Vec<T> = Vec::new();
        let mut i: usize = 0;
        while i < value.len()
            invariant
                i <= value@.len(),
                items@ == value@.take(i as int),
            decreases value@.len() - i,
        {
            items.push(value[i]);
            assert(value@.take(i + 1) =~= value@.take(i as int).push(value@[i as int]));
            i += 1;
        }
        assert(value@.take(value@.len() as int) =~= value@);
        TArray { items, max: value.len() }
    }
}

impl<T: Clone> Clone for TArray<T> {
    /// A copy with room for exactly its elements, each element cloned.
    fn clone(&self) -> (r: Self)
        ensures
            r@.len() == self@.len(),
            forall|i: int| 0 <= i < self@.len() ==> cloned(self@[i], #[trigger] r@[i]),
            r.cap() == self@.len(),
    {
        proof {
            use_type_invariant(self);
        }
        let n = self.items.len();
        let mut items: Vec<T> = Vec::new();
        let mut i: usize = 0;
        while i < n
            invariant
                n == self@.len(),
                i <= n,
                items@.len() == i,
                forall|j: int| 0 <= j < i ==> cloned(self@[j], #[trigger] items@[j]),
            decreases n - i,
        {
            let c = self.items[i].clone();
            items.push(c);
            i += 1;
        }
        TArray { items, max: n }
    }
}

/// The engine's wide string: UTF-16 code units, usually ending in a NUL.
pub type FString = TArray<u16>;

/// `units` without its trailing NUL code units.
pub open spec fn without_trailing_nuls(units: Seq<u16>) -> Seq<u16>
    decreases units.len(),
{
    if units.len() > 0 && units.last() == 0 {
        without_trailing_nuls(units.drop_last())
    } else {
        units
    }
}

impl TArray<u16> {
    /// The code units of the text, without the trailing NULs.
    pub fn text_units(&self) -> (r: Vec<u16>)
        ensures
            r@ == without_trailing_nuls(self@),
    {
        let units = self.items.as_slice();
        let mut last: usize = units.len();
        assert(units@.take(units@.len() as int) =~= units@);
        while last > 0 && units[last - 1] == 0
            invariant
                last <= units@.len(),
                without_trailing_nuls(units@) == without_trailing_nuls(units@.take(last as int)),
            decreases last,
        {
            assert(units@.take(last as int).drop_last() =~= units@.take(last - 1));
            last -= 1;
        }
        let mut r: Vec<u16> = Vec::new();
        let mut i: usize = 0;
        while i < last
            invariant
                last <= units@.len(),
                i <= last,
                r@ == units@.take(i as int),
            decreases last - i,
        {
            r.push(units[i]);
            assert(units@.take(i + 1) =~= units@.take(i as int).push(units@[i as int]));
            i += 1;
        }
        assert(r@ =~= units@.take(last as int));
        r
    }

    /// The text of the string: its code units before the trailing NULs,
    /// decoded from UTF-16; `None` when they are not the UTF-16 encoding of
    /// any text (an unpaired surrogate).
    pub fn to_text(&self) -> (r: Option<String>)
        ensures
            match r {
                Some(t) => encode_utf16(t@) == without_trailing_nuls(self@),
                None => forall|t: Seq<char>| #[trigger] encode_utf16(t) != without_trailing_nuls(self@),
            },
    {
        let units = self.text_units();
        utf16_text(units.as_slice())
    }

    /// The text of the string (see [`TArray::to_text`]), for code units that
    /// encode one.
    pub fn to_string(&self) -> (r: String)
        requires
            exists|t: Seq<char>| encode_utf16(t) == without_trailing_nuls(self@),
        ensures
            encode_utf16(r@) == without_trailing_nuls(self@),
    {
        match self.to_text() {
            Some(t) => t,
            None => {
                proof {
                    let t = choose|t: Seq<char>| encode_utf16(t) == without_trailing_nuls(self@);
                    assert(encode_utf16(t) != without_trailing_nuls(self@));
                }
                String::new()
            },
        }
    }
}

/// The UTF-16 code units of `c`: one unit below `0x10000`, otherwise a
/// surrogate pair.
pub open spec fn utf16_of_char(c: char) -> Seq<u16> {
    let v = c as u32;
    if v < 0x10000 {
        seq![v as u16]
    } else {
        seq![(0xD800 + (v - 0x10000) / 0x400) as u16, (0xDC00 + (v - 0x10000) % 0x400) as u16]
    }
}

/// The UTF-16 encoding of a text.
pub open spec fn encode_utf16(t: Seq<char>) -> Seq<u16>
    decreases t.len(),
{
    if t.len() == 0 {
        Seq::empty()
    } else {
        encode_utf16(t.drop_last()) + utf16_of_char(t.last())
    }
}

/// The units of a character: one unit that is not a low surrogate, or a
/// high surrogate followed by a low one.
proof fn lemma_utf16_of_char_shape(c: char)
    ensures
        (c as u32) < 0x10000 ==> utf16_of_char(c).len() == 1 && utf16_of_char(c)[0] == c as u32
            && !(0xDC00 <= utf16_of_char(c)[0] <= 0xDFFF),
        (c as u32) >= 0x10000 ==> utf16_of_char(c).len() == 2 && 0xD800 <= utf16_of_char(c)[0] <= 0xDBFF
            && 0xDC00 <= utf16_of_char(c)[1] <= 0xDFFF,
        utf16_of_char(c).last() == 0 ==> c == '\0',
{
    let v = c as u32;
    if v >= 0x10000 {
        let w = v - 0x10000;
        assert(0 <= w / 0x400 <= 0x3FF);
        assert(0 <= w % 0x400 <= 0x3FF);
    } else {
        assert(!(0xD800 <= v <= 0xDFFF));
        if v == 0 {
            assert(c == '\0') by {
                assert(('\0' as u32) == 0);
            }
        }
    }
}

/// Two characters with the same units are the same character.
proof fn lemma_utf16_of_char_injective(a: char, b: char)
    requires
        utf16_of_char(a) == utf16_of_char(b),
    ensures
        a == b,
{
    lemma_utf16_of_char_shape(a);
    lemma_utf16_of_char_shape(b);
    let va = a as u32;
    let vb = b as u32;
    if va >= 0x10000 {
        let wa = va - 0x10000;
        let wb = vb - 0x10000;
        assert(utf16_of_char(a)[0] == utf16_of_char(b)[0]);
        assert(utf16_of_char(a)[1] == utf16_of_char(b)[1]);
        assert(wa / 0x400 == wb / 0x400);
        assert(wa % 0x400 == wb % 0x400);
        lemma_fundamental_div_mod(wa as int, 0x400);
        lemma_fundamental_div_mod(wb as int, 0x400);
        assert(wa == wb);
    } else {
        assert(utf16_of_char(a)[0] == utf16_of_char(b)[0]);
    }
    assert(va == vb);
}

/// An encoding is empty exactly for the empty text.
proof fn lemma_encode_utf16_len(t: Seq<char>)
    ensures
        encode_utf16(t).len() >= t.len(),
    decreases t.len(),
{
    if t.len() > 0 {
        lemma_encode_utf16_len(t.drop_last());
        lemma_utf16_of_char_shape(t.last());
    }
}

/// Two texts with the same UTF-16 encoding are the same text.
pub proof fn lemma_encode_utf16_injective(a: Seq<char>, b: Seq<char>)
    requires
        encode_utf16(a) == encode_utf16(b),
    ensures
        a == b,
    decreases a.len(),
{
    lemma_encode_utf16_len(a);
    lemma_encode_utf16_len(b);
    if a.len() == 0 || b.len() == 0 {
        assert(a.len() == 0 && b.len() == 0);
        assert(a =~= b);
    } else {
        let ua = utf16_of_char(a.last());
        let ub = utf16_of_char(b.last());
        let e = encode_utf16(a);
        lemma_utf16_of_char_shape(a.last());
        lemma_utf16_of_char_shape(b.last());
        assert(e.last() == ua.last());
        assert(e.last() == ub.last());
        assert(ua.len() == ub.len());
        let n = e.len() - ua.len();
        assert(encode_utf16(a.drop_last()) =~= e.take(n));
        assert(encode_utf16(b.drop_last()) =~= e.take(n));
        assert(ua =~= e.skip(n));
        assert(ub =~= e.skip(n));
        lemma_utf16_of_char_injective(a.last(), b.last());
        lemma_encode_utf16_injective(a.drop_last(), b.drop_last());
        assert(a =~= a.drop_last().push(a.last()));
        assert(b =~= b.drop_last().push(b.last()));
    }
}

/// The code units of a text followed by `nuls` NULs, for a text that does not
/// end in a NUL character, lose exactly the NULs when trailing NULs are cut.
proof fn lemma_strip_added_nuls(t: Seq<char>, nuls: nat)
    requires
        t.len() == 0 || t.last() != '\0',
    ensures
        without_trailing_nuls(encode_utf16(t) + Seq::new(nuls, |i: int| 0u16)) == encode_utf16(t),
    decreases nuls,
{
    let z = Seq::new(nuls, |i: int| 0u16);
    if nuls == 0 {
        assert(encode_utf16(t) + z =~= encode_utf16(t));
        if t.len() > 0 {
            lemma_utf16_of_char_shape(t.last());
            assert(encode_utf16(t).last() == utf16_of_char(t.last()).last());
        }
    } else {
        let z1 = Seq::new((nuls - 1) as nat, |i: int| 0u16);
        assert((encode_utf16(t) + z).drop_last() =~= encode_utf16(t) + z1);
        lemma_strip_added_nuls(t, (nuls - 1) as nat);
    }
}

/// Showing a string made of the UTF-16 units of a text, followed by any number
/// of NULs, gives back that text (for a text that does not itself end in a NUL
/// character).
pub proof fn lemma_fstring_text_roundtrip(t: Seq<char>, nuls: nat)
    requires
        t.len() == 0 || t.last() != '\0',
    ensures
        without_trailing_nuls(encode_utf16(t) + Seq::new(nuls, |i: int| 0u16)) == encode_utf16(t),
        forall|r: Seq<char>| #[trigger] encode_utf16(r) == encode_utf16(t) ==> r == t,
{
    lemma_strip_added_nuls(t, nuls);
    assert forall|r: Seq<char>| #[trigger] encode_utf16(r) == encode_utf16(t) implies r == t by {
        lemma_encode_utf16_injective(r, t);
    }
}

/// Decodes UTF-16 with `widestring::U16Str::to_string`: the text whose UTF-16
/// encoding `units` is, or `None` when no text encodes to them (an unpaired
/// surrogate, which that function reports as an error).
#[verifier::external_body]
fn utf16_text(units: &[u16]) -> (r: Option<String>)
    ensures
        match r {
            Some(t) => encode_utf16(t@) == units@,
            None => forall|t: Seq<char>| #[trigger] encode_utf16(t) != units@,
        },
{
    widestring::U16Str::from_slice(units).to_string().ok()
}

/// Flattening a sequence of blocks that all hold `p` elements puts element `r`
/// of block `c` at position `c * p + r`.
pub proof fn lemma_flatten_uniform<A>(s: Seq<Seq<A>>, p: int)
    requires
        p > 0,
        forall|c: int| 0 <= c < s.len() ==> #[trigger] s[c].len() == p,
    ensures
        s.flatten().len() == s.len() * p,
        forall|c: int, r: int|
            0 <= c < s.len() && 0 <= r < p ==> s.flatten()[c * p + r] == #[trigger] s[c][r],
    decreases s.len(),
{
    if s.len() > 0 {
        let rest = s.drop_first();
        assert forall|c: int| 0 <= c < rest.len() implies #[trigger] rest[c].len() == p by {
            assert(rest[c] == s[c + 1]);
        }
        lemma_flatten_uniform(rest, p);
        assert(s.flatten() == s.first() + rest.flatten());
        assert(s.len() * p == p + rest.len() * p) by (nonlinear_arith)
            requires
                s.len() == rest.len() + 1,
        ;
        assert forall|c: int, r: int| 0 <= c < s.len() && 0 <= r < p implies s.flatten()[c * p
            + r] == #[trigger] s[c][r] by {
            if c > 0 {
                assert(c * p + r - p == (c - 1) * p + r) by (nonlinear_arith);
                assert(p <= c * p + r) by (nonlinear_arith)
                    requires
                        c >= 1,
                        p > 0,
                        r >= 0,
                ;
                assert((c - 1) * p + r < rest.len() * p) by (nonlinear_arith)
                    requires
                        c - 1 < rest.len(),
                        0 <= r < p,
                ;
                assert(rest[c - 1] == s[c]);
            }
        }
    }
}

/// Replacing element `r` of block `c` of equally sized blocks replaces position
/// `c * p + r` of their flattening.
pub proof fn lemma_flatten_update<A>(s: Seq<Seq<A>>, p: int, c: int, r: int, x: A)
    requires
        p > 0,
        forall|k: int| 0 <= k < s.len() ==> #[trigger] s[k].len() == p,
        0 <= c < s.len(),
        0 <= r < p,
    ensures
        s.update(c, s[c].update(r, x)).flatten() == s.flatten().update(c * p + r, x),
{
    let t = s.update(c, s[c].update(r, x));
    assert forall|k: int| 0 <= k < t.len() implies #[trigger] t[k].len() == p by {}
    lemma_flatten_uniform(s, p);
    lemma_flatten_uniform(t, p);
    assert(t.len() == s.len());
    assert(0 <= c * p + r < s.len() * p) by (nonlinear_arith)
        requires
            0 <= c < s.len(),
            0 <= r < p,
    ;
    let ft = t.flatten();
    let fs = s.flatten().update(c * p + r, x);
    assert(ft.len() == fs.len());
    assert forall|i: int| 0 <= i < ft.len() implies ft[i] == fs[i] by {
        lemma_fundamental_div_mod(i, p);
        let q = i / p;
        let m = i % p;
        assert(i == q * p + m) by (nonlinear_arith)
            requires
                i == p * q + m,
        ;
        assert(0 <= m < p);
        assert(0 <= q < s.len()) by (nonlinear_arith)
            requires
                0 <= i < s.len() * p,
                i == q * p + m,
                0 <= m < p,
                p > 0,
        ;
        assert(ft[q * p + m] == t[q][m]);
        assert(s.flatten()[q * p + m] == s[q][m]);
        if i == c * p + r {
            lemma_fundamental_div_mod_converse(i, p, c, r);
            assert(q == c && m == r);
            assert(ft[i] == x);
        } else {
            if q == c {
                assert(m != r);
                assert(t[q][m] == s[q][m]);
            } else {
                assert(t[q] == s[q]);
            }
            assert(fs[i] == s.flatten()[i]);
        }
    }
    assert(t.flatten() =~= s.flatten().update(c * p + r, x));
}

/// For a positive divisor `d`, the quotient `x / d` is positive exactly when
/// `x` is at least `d`, and not negative when `x` is not negative.
proof fn lemma_quotient_sign(x: int, d: int)
    requires
        d > 0,
    ensures
        (x / d > 0) <==> (x >= d),
        x >= 0 ==> x / d >= 0,
{
    lemma_fundamental_div_mod(x, d);
    let q = x / d;
    let m = x % d;
    assert(0 <= m < d);
    if q > 0 {
        assert(d * q >= d) by (nonlinear_arith)
            requires
                q > 0,
                d > 0,
        ;
    } else {
        assert(d * q <= 0) by (nonlinear_arith)
            requires
                q <= 0,
                d > 0,
        ;
    }
    if x >= 0 && q < 0 {
        assert(d * q <= -d) by (nonlinear_arith)
            requires
                q < 0,
                d > 0,
        ;
    }
}

/// One slot of the engine's object table: the object's address (0 for none),
/// its flags, its cluster and the serial number that weak pointers to it carry
/// (0 while none was handed out).
#[derive(Clone, Copy, Debug, PartialEq, Eq, Structural)]
pub struct FUObjectItem {
    pub object: usize,
    pub flags: i32,
    pub cluster_root_index: i32,
    pub serial_number: i32,
}

/// Chunks of `max_elements / max_chunks` slots each (a positive number), and a
/// count of slots in use that they can hold.
pub open spec fn chunked_layout_ok(
    chunks: Seq<Seq<FUObjectItem>>,
    max_elements: i32,
    max_chunks: i32,
    num_elements: i32,
) -> bool {
    let per = max_elements as int / max_chunks as int;
    &&& max_chunks > 0
    &&& per > 0
    &&& forall|c: int| 0 <= c < chunks.len() ==> #[trigger] chunks[c].len() == per
    &&& 0 <= num_elements <= chunks.len() * per
}

/// `item` with its serial number replaced by `serial`.
pub open spec fn with_serial(item: FUObjectItem, serial: i32) -> FUObjectItem {
    FUObjectItem {
        object: item.object,
        flags: item.flags,
        cluster_root_index: item.cluster_root_index,
        serial_number: serial,
    }
}

/// The engine's object table: slots kept in chunks of `max_elements /
/// max_chunks` slots each, the first `num_elements` of them in use.
pub struct FChunkedFixedUObjectArray {
    chunks: Vec<Vec<FUObjectItem>>,
    max_elements: i32,
    num_elements: i32,
    max_chunks: i32,
    num_chunks: i32,
}

impl FChunkedFixedUObjectArray {
    /// The chunks, as sequences of slots.
    pub closed spec fn chunk_views(self) -> Seq<Seq<FUObjectItem>> {
        self.chunks@.map_values(|c: Vec<FUObjectItem>| c@)
    }

    /// The table's counts: (`max_elements`, `num_elements`, `max_chunks`,
    /// `num_chunks`).
    pub closed spec fn counts(self) -> (i32, i32, i32, i32) {
        (self.max_elements, self.num_elements, self.max_chunks, self.num_chunks)
    }

    /// The number of slots in a chunk.
    pub closed spec fn per_chunk(self) -> int {
        self.max_elements as int / self.max_chunks as int
    }

    /// All slots, chunk after chunk.
    pub closed spec fn slots(self) -> Seq<FUObjectItem> {
        self.chunk_views().flatten()
    }

    /// The slots in use.
    pub closed spec fn in_use(self) -> int {
        self.num_elements as int
    }

    /// The layout is sound (see [`chunked_layout_ok`]).
    pub closed spec fn wf(self) -> bool {
        chunked_layout_ok(self.chunk_views(), self.max_elements, self.max_chunks, self.num_elements)
    }

    /// A table made of `chunks`, or `None` when the chunks are not all of
    /// `max_elements / max_chunks` slots or cannot hold `num_elements` slots.
    pub fn from_chunks(
        chunks: Vec<Vec<FUObjectItem>>,
        max_elements: i32,
        max_chunks: i32,
        num_elements: i32,
    ) -> (r: Option<FChunkedFixedUObjectArray>)
        ensures
            match r {
                Some(t) => {
                    &&& t.wf()
                    &&& t.chunk_views() == chunks@.map_values(|c: Vec<FUObjectItem>| c@)
                    &&& t.counts() == (max_elements, num_elements, max_chunks, chunks@.len() as i32)
                },
                None => !chunked_layout_ok(
                    chunks@.map_values(|c: Vec<FUObjectItem>| c@),
                    max_elements,
                    max_chunks,
                    num_elements,
                ) || chunks@.len() > 0x7FFF_FFFF,
            },
    {
        if max_chunks <= 0 || max_elements < max_chunks || num_elements < 0 {
            proof {
                if max_chunks > 0 {
                    lemma_quotient_sign(max_elements as int, max_chunks as int);
                }
            }
            return None;
        }
        let per_u = (max_elements as u32) / (max_chunks as u32);
        let per = per_u as i32;
        proof {
            lemma_quotient_sign(max_elements as int, max_chunks as int);
            assert(per as int == max_elements as int / max_chunks as int);
        }
        let n = chunks.len();
        if n > 0x7FFF_FFFF {
            return None;
        }
        let ghost views = chunks@.map_values(|c: Vec<FUObjectItem>| c@);
        let mut i: usize = 0;
        while i < n
            invariant
                n == chunks@.len(),
                views == chunks@.map_values(|c: Vec<FUObjectItem>| c@),
                per > 0,
                per as int == max_elements as int / max_chunks as int,
                i <= n,
                forall|c: int| 0 <= c < i ==> #[trigger] views[c].len() == per,
            decreases n - i,
        {
            if chunks[i].len() != per as usize {
                assert(views[i as int] == chunks@[i as int]@);
                return None;
            }
            assert(views[i as int] == chunks@[i as int]@);
            i += 1;
        }
        assert((n as int) * (per as int) <= 0x7FFF_FFFF * 0x7FFF_FFFF) by (nonlinear_arith)
            requires
                n <= 0x7FFF_FFFF,
                0 < per <= 0x7FFF_FFFF,
        ;
        if (num_elements as u64) > (n as u64) * (per as u64) {
            return None;
        }
        Some(
            FChunkedFixedUObjectArray {
                chunks,
                max_elements,
                num_elements,
                max_chunks,
                num_chunks: n as i32,
            },
        )
    }

    /// The slot at `index`, found in chunk `index / per_chunk` at position
    /// `index % per_chunk`.
    pub fn item(&self, index: i32) -> (r: &FUObjectItem)
        requires
            self.wf(),
            0 <= index < self.in_use(),
        ensures
            *r == self.slots()[index as int],
    {
        proof {
            lemma_quotient_sign(self.max_elements as int, self.max_chunks as int);
        }
        let per_u = (self.max_elements as u32) / (self.max_chunks as u32);
        let c_u = (index as u32) / per_u;
        let m_u = (index as u32) % per_u;
        let per = per_u as i32;
        let c = c_u as i32;
        let m = m_u as i32;
        proof {
            lemma_fundamental_div_mod(index as int, per as int);
            lemma_flatten_uniform(self.chunk_views(), per as int);
            assert(index == c * per + m) by (nonlinear_arith)
                requires
                    index == per * c + m,
            ;
            assert(c < self.chunk_views().len()) by (nonlinear_arith)
                requires
                    0 <= index < self.chunk_views().len() * per,
                    index == c * per + m,
                    0 <= m < per,
            ;
            assert(self.chunk_views()[c as int] == self.chunks@[c as int]@);
        }
        &self.chunks[c as usize][m as usize]
    }

    /// Gives the slot at `index` the serial number `serial`.
    fn set_serial_number(&mut self, index: i32, serial: i32)
        requires
            old(self).wf(),
            0 <= index < old(self).in_use(),
        ensures
            final(self).wf(),
            final(self).counts() == old(self).counts(),
            final(self).slots() == old(self).slots().update(
                index as int,
                with_serial(old(self).slots()[index as int], serial),
            ),
    {
        proof {
            lemma_quotient_sign(self.max_elements as int, self.max_chunks as int);
        }
        let per_u = (self.max_elements as u32) / (self.max_chunks as u32);
        let c_u = (index as u32) / per_u;
        let m_u = (index as u32) % per_u;
        let ghost per = per_u as int;
        let ghost c = c_u as int;
        let ghost m = m_u as int;
        let ghost old_views = self.chunk_views();
        proof {
            lemma_fundamental_div_mod(index as int, per);
            lemma_flatten_uniform(old_views, per);
            assert(index == c * per + m) by (nonlinear_arith)
                requires
                    index == per * c + m,
            ;
            assert(c < old_views.len()) by (nonlinear_arith)
                requires
                    0 <= index < old_views.len() * per,
                    index == c * per + m,
                    0 <= m < per,
            ;
            assert(old_views[c] == self.chunks@[c]@);
        }
        let ghost old_item = self.chunks@[c]@[m];
        self.chunks[c_u as usize][m_u as usize].serial_number = serial;
        proof {
            let new_views = self.chunk_views();
            assert(new_views =~= old_views.update(c, old_views[c].update(m, with_serial(old_item, serial))));
            lemma_flatten_update(old_views, per, c, m, with_serial(old_item, serial));
            assert(old_views.flatten()[index as int] == old_item);
            assert forall|k: int| 0 <= k < new_views.len() implies #[trigger] new_views[k].len() == per by {
                assert(old_views[k].len() == per);
            }
        }
    }

    /// An iterator over the objects of the slots in use, from the first.
    pub fn iter(&self) -> (r: ObjectIterator<'_>)
        ensures
            r.table() == *self,
            r.position() == 0,
    {
        ObjectIterator { array: self, index: 0 }
    }
}

/// Walks the slots in use of an object table and yields each slot's object
/// (`None` for an empty slot).
pub struct ObjectIterator<'a> {
    array: &'a FChunkedFixedUObjectArray,
    index: i32,
}

impl<'a> ObjectIterator<'a> {
    /// The table walked.
    pub closed spec fn table(self) -> FChunkedFixedUObjectArray {
        *self.array
    }

    /// The index of the next slot.
    pub closed spec fn position(self) -> int {
        self.index as int
    }

    /// The number of slots in use, as both bounds.
    pub fn size_hint(&self) -> (r: (usize, Option<usize>))
        requires
            self.table().wf(),
        ensures
            r.0 == self.table().in_use(),
            r.1 == Some(r.0),
    {
        let size = self.array.num_elements as usize;
        (size, Some(size))
    }

    /// The object of the next slot, or `None` once every slot in use was seen.
    pub fn next(&mut self) -> (r: Option<Option<usize>>)
        requires
            old(self).table().wf(),
            old(self).position() >= 0,
        ensures
            final(self).table() == old(self).table(),
            old(self).position() >= old(self).table().in_use() ==> (r is None
                && final(self).position() == old(self).position()),
            old(self).position() < old(self).table().in_use() ==> {
                let obj = old(self).table().slots()[old(self).position()].object;
                &&& r == Some(if obj == 0 { None::<usize> } else { Some(obj) })
                &&& final(self).position() == old(self).position() + 1
            },
    {
        if self.index >= self.array.num_elements {
            None
        } else {
            let obj = self.array.item(self.index).object;
            self.index = self.index + 1;
            if obj == 0 {
                Some(None)
            } else {
                Some(Some(obj))
            }
        }
    }

    /// Skips to slot `n` (when not already past it) and yields its object.
    pub fn nth(&mut self, n: usize) -> (r: Option<Option<usize>>)
        requires
            old(self).table().wf(),
            old(self).position() >= 0,
            n <= 0x7FFF_FFFF,
        ensures
            final(self).table() == old(self).table(),
            ({
                let start = if old(self).position() < n { n as int } else { old(self).position() };
                &&& start >= old(self).table().in_use() ==> (r is None
                    && final(self).position() == start)
                &&& start < old(self).table().in_use() ==> {
                    let obj = old(self).table().slots()[start].object;
                    &&& r == Some(if obj == 0 { None::<usize> } else { Some(obj) })
                    &&& final(self).position() == start + 1
                }
            }),
    {
        let n = n as i32;
        if self.index < n {
            self.index = n;
        }
        self.next()
    }
}

/// The engine's object array: the table of objects and the next serial number
/// to hand out.
pub struct FUObjectArray {
    obj_objects: FChunkedFixedUObjectArray,
    master_serial_number: i32,
}

/// What allocating a serial number for slot `index` does: a slot that has one
/// keeps it and nothing changes; otherwise the slot takes the master serial
/// number, which moves on by one (wrapping like the engine's atomic counter).
pub open spec fn serial_allocation(pre: FUObjectArray, index: int, post: FUObjectArray, r: i32) -> bool {
    let cur = pre.table().slots()[index].serial_number;
    &&& post.table().counts() == pre.table().counts()
    &&& if cur != 0 {
        &&& r == cur
        &&& post.table().slots() == pre.table().slots()
        &&& post.master() == pre.master()
    } else {
        &&& r == pre.master()
        &&& post.master() == pre.master().wrapping_add(1)
        &&& post.table().slots() == pre.table().slots().update(
            index,
            with_serial(pre.table().slots()[index], r),
        )
    }
}

impl FUObjectArray {
    /// The table of objects.
    pub closed spec fn table(self) -> FChunkedFixedUObjectArray {
        self.obj_objects
    }

    /// The next serial number to hand out.
    pub closed spec fn master(self) -> i32 {
        self.master_serial_number
    }

    /// An object array over `objects` whose next serial number is
    /// `master_serial_number`.
    pub fn new(objects: FChunkedFixedUObjectArray, master_serial_number: i32) -> (r: Self)
        ensures
            r.table() == objects,
            r.master() == master_serial_number,
    {
        FUObjectArray { obj_objects: objects, master_serial_number }
    }

    /// The table of objects.
    pub fn objects(&self) -> (r: &FChunkedFixedUObjectArray)
        ensures
            *r == self.table(),
    {
        &self.obj_objects
    }

    /// The serial number of slot `index`, handing out a new one when the slot
    /// has none yet (see [`serial_allocation`]).
    pub fn allocate_serial_number(&mut self, index: i32) -> (r: i32)
        requires
            old(self).table().wf(),
            0 <= index < old(self).table().in_use(),
        ensures
            final(self).table().wf(),
            serial_allocation(*old(self), index as int, *final(self), r),
    {
        let current = self.obj_objects.item(index).serial_number;
        if current != 0 {
            current
        } else {
            let new = self.master_serial_number;
            self.master_serial_number = self.master_serial_number.wrapping_add(1);
            self.obj_objects.set_serial_number(index, new);
            new
        }
    }
}

/// Once the master serial number is not zero, a slot's serial number is
/// handed out once: allocating it again gives the same number and changes
/// nothing.
pub proof fn lemma_serial_number_stable(
    a0: FUObjectArray,
    a1: FUObjectArray,
    a2: FUObjectArray,
    index: int,
    r1: i32,
    r2: i32,
)
    requires
        a0.table().wf(),
        a1.table().wf(),
        0 <= index < a0.table().in_use(),
        a0.master() != 0,
        serial_allocation(a0, index, a1, r1),
        serial_allocation(a1, index, a2, r2),
    ensures
        r1 != 0,
        r2 == r1,
        a2.table().slots() == a1.table().slots(),
        a2.master() == a1.master(),
{
    lemma_slots_len(a0.table());
}

/// The slots in use lie within the table.
proof fn lemma_slots_len(t: FChunkedFixedUObjectArray)
    requires
        t.wf(),
    ensures
        t.in_use() <= t.slots().len(),
{
    lemma_flatten_uniform(t.chunk_views(), t.per_chunk());
}

/// A weak reference to an object: the object's slot and the serial number the
/// slot had when the reference was made.
#[derive(Clone, Copy, Debug, PartialEq, Eq, Structural)]
pub struct FWeakObjectPtr {
    object_index: i32,
    object_serial_number: i32,
}

impl FWeakObjectPtr {
    /// The slot referred to.
    pub closed spec fn slot(self) -> i32 {
        self.object_index
    }

    /// The serial number carried.
    pub closed spec fn serial(self) -> i32 {
        self.object_serial_number
    }

    /// A weak reference to the object in slot `index`, carrying the slot's
    /// serial number (allocated when the slot had none).
    pub fn new_from_index(index: i32, object_array: &mut FUObjectArray) -> (r: Self)
        requires
            old(object_array).table().wf(),
            0 <= index < old(object_array).table().in_use(),
        ensures
            final(object_array).table().wf(),
            r.slot() == index,
            serial_allocation(*old(object_array), index as int, *final(object_array), r.serial()),
    {
        let serial = object_array.allocate_serial_number(index);
        FWeakObjectPtr { object_index: index, object_serial_number: serial }
    }

    /// The object in the referred slot.
    pub fn get(&self, object_array: &FUObjectArray) -> (r: Option<usize>)
        requires
            object_array.table().wf(),
            0 <= self.slot() < object_array.table().in_use(),
        ensures
            r == Some(object_array.table().slots()[self.slot() as int].object),
    {
        Some(object_array.objects().item(self.object_index).object)
    }
}

/// An entry of the engine's name table.
#[derive(Clone, Copy, Debug, PartialEq, Eq, Structural, PartialOrd, Ord, Hash)]
pub struct FNameEntryId {
    pub value: u32,
}

/// A name of the engine: its entry in the name table and its number suffix.
/// Entry 0 is the empty name.
#[derive(Clone, Copy, Debug, PartialEq, Eq, Structural, PartialOrd, Ord, Hash)]
pub struct FName {
    pub comparison_index: FNameEntryId,
    pub number: u32,
}

impl Default for FName {
    /// The empty name.
    fn default() -> (r: Self)
        ensures
            r.comparison_index.value == 0,
            r.number == 0,
    {
        FName { comparison_index: FNameEntryId { value: 0 }, number: 0 }
    }
}

/// How the engine's name constructor treats a name that is not in the table.
#[derive(Clone, Copy, Debug, PartialEq, Eq, Structural)]
pub enum EFindName {
    /// Only return names that exist.
    Find,
    /// Add the name when it is missing.
    Add,
    /// Replace the stored spelling (rarely used).
    ReplaceNotSafe,
}

impl EFindName {
    /// The value the engine gives this mode.
    pub fn as_u8(&self) -> (r: u8)
        ensures
            r == (match *self {
                EFindName::Find => 0u8,
                EFindName::Add => 1u8,
                EFindName::ReplaceNotSafe => 2u8,
            }),
    {
        match self {
            EFindName::Find => 0,
            EFindName::Add => 1,
            EFindName::ReplaceNotSafe => 2,
        }
    }
}

/// Whether `s` holds a NUL anywhere but as its last character.
pub open spec fn has_interior_nul(s: Seq<char>) -> bool {
    exists|i: int| 0 <= i < s.len() - 1 && s[i] == '\0'
}

/// The NUL-terminated UTF-16 units of `s`: its encoding, with a NUL added
/// unless it already ends in one.
pub open spec fn wide_c_units(s: Seq<char>) -> Seq<u16> {
    if s.len() > 0 && s.last() == '\0' {
        encode_utf16(s)
    } else {
        encode_utf16(s).push(0)
    }
}

/// Encodes `s` as a NUL-terminated UTF-16 string with
/// `widestring::U16CString::from_str` (its units, terminator included, taken
/// with `into_vec_with_nul`); `None` when `s` holds a NUL before its last
/// character, which that function refuses.
#[verifier::external_body]
fn wide_c_string(s: &str) -> (r: Option<Vec<u16>>)
    ensures
        match r {
            Some(v) => !has_interior_nul(s@) && v@ == wide_c_units(s@),
            None => has_interior_nul(s@),
        },
{
    match widestring::U16CString::from_str(s) {
        Ok(w) => Some(w.into_vec_with_nul()),
        Err(_) => None,
    }
}

impl FName {
    /// Builds the name of `path` with the engine's constructor `construct`,
    /// which takes the path as NUL-terminated UTF-16 units, looking it up as
    /// `find_type` says; when that gives the empty entry, the name is added
    /// to the table instead.
    pub fn with_type<F: Fn(&[u16], EFindName) -> FName>(
        path: &str,
        find_type: EFindName,
        construct: F,
    ) -> (r: FName)
        requires
            !has_interior_nul(path@),
            forall|w: &[u16], m: EFindName| w@ == wide_c_units(path@) ==> #[trigger] construct.requires((w, m)),
        ensures
            exists|w: &[u16], first: FName|
                {
                    &&& w@ == wide_c_units(path@)
                    &&& #[trigger] construct.ensures((w, find_type), first)
                    &&& first.comparison_index.value != 0 ==> r == first
                    &&& first.comparison_index.value == 0 ==> construct.ensures((w, EFindName::Add), r)
                },
    {
        let wide = match wide_c_string(path) {
            Some(v) => v,
            None => {
                assert(false);
                Vec::new()
            },
        };
        let ws = wide.as_slice();
        let name = construct(ws, find_type);
        if name.comparison_index.value == 0 {
            let added = construct(ws, EFindName::Add);
            assert(construct.ensures((ws, find_type), name));
            added
        } else {
            assert(construct.ensures((ws, find_type), name));
            name
        }
    }
}

/// The reference counts behind a shared pointer.
#[derive(Clone, Copy, Debug, PartialEq, Eq, Structural)]
pub struct FReferenceControllerBase {
    pub shared_reference_count: i32,
    pub weak_reference_count: i32,
}

/// The chain of base structures of a structure: the address of its array and
/// the chain's length minus one.
#[derive(Clone, Copy, Debug, PartialEq, Eq, Structural)]
pub struct FStructBaseChain {
    pub struct_base_chain_array: usize,
    pub num_struct_bases_in_chain_minus_one: i32,
}

/// A listener told of each object the engine creates.
#[derive(Debug)]
pub struct FUObjectCreateListener;

/// A listener told of each object the engine deletes.
#[derive(Debug)]
pub struct FUObjectDeleteListener;

/// A property of a structure (its layout is not read).
pub struct FProperty {}

/// A shared pointer of the engine: the address of the object and that of its
/// reference counts (see [`FReferenceControllerBase`]).
#[derive(Debug)]
pub struct TSharedPtr<T> {
    pub object: usize,
    pub reference_controller: usize,
    pub marker: PhantomData<T>,
}

/// The address of an engine object kept for use from any thread (the world,
/// the game mode); 0 is the null address.
#[derive(Debug)]
pub struct SyncPtr<T> {
    pub address: usize,
    pub marker: PhantomData<T>,
}

impl<T> Clone for SyncPtr<T> {
    /// The same address.
    fn clone(&self) -> (r: Self)
        ensures
            r.address == self.address,
    {
        SyncPtr { address: self.address, marker: PhantomData }
    }
}

impl<T> Copy for SyncPtr<T> {}

impl<T> Default for SyncPtr<T> {
    /// The null address.
    fn default() -> (r: Self)
        ensures
            r.address == 0,
    {
        SyncPtr { address: 0, marker: PhantomData }
    }
}

/// An engine interface reference: the address of the object and that of its
/// interface table; 0 is the null address.
#[derive(Clone, Copy, Debug, PartialEq, Eq, Structural)]
pub struct TScriptInterface {
    pub object: usize,
    pub interface: usize,
}

impl TScriptInterface {
    /// The null reference.
    pub fn new() -> (r: Self)
        ensures
            r.object == 0,
            r.interface == 0,
    {
        TScriptInterface { object: 0, interface: 0 }
    }
}

/// What the asset registry records of an asset: its names, the raw tag and
/// chunk tables, and its package flags.
#[allow(non_snake_case)]
#[derive(Clone, Copy, Debug)]
pub struct FAssetData {
    pub ObjectPath: FName,
    pub PackageName: FName,
    pub PackagePath: FName,
    pub AssetName: FName,
    pub AssetClass: FName,
    pub TagsAndValues: [u8; 16],
    pub ChunkIDs: [u8; 16],
    pub PackageFlags: u32,
    pub padding: [u8; 4],
}

/// The description of an asset from the texts of its object path, package
/// name, package path, asset name and class.
pub open spec fn asset_description(
    object_path: Seq<char>,
    package_name: Seq<char>,
    package_path: Seq<char>,
    asset_name: Seq<char>,
    asset_class: Seq<char>,
) -> Seq<char> {
    "ObjectPath "@ + object_path + "\n PackageName: "@ + package_name + "\n PackagePath: "@
        + package_path + "\n AssetName: "@ + asset_name + "\n AssetClass: "@ + asset_class
}

impl FAssetData {
    /// Describes the asset, writing each of its names with `name_text` (the
    /// engine's name-to-text conversion); see [`asset_description`].
    pub fn describe<F: Fn(FName) -> String>(&self, name_text: F) -> (r: String)
        requires
            forall|n: FName| name_text.requires((n,)),
        ensures
            exists|a: String, b: String, c: String, d: String, e: String|
                {
                    &&& name_text.ensures((self.ObjectPath,), a)
                    &&& name_text.ensures((self.PackageName,), b)
                    &&& name_text.ensures((self.PackagePath,), c)
                    &&& name_text.ensures((self.AssetName,), d)
                    &&& name_text.ensures((self.AssetClass,), e)
                    &&& r@ == asset_description(a@, b@, c@, d@, e@)
                },
    {
        let a = name_text(self.ObjectPath);
        let b = name_text(self.PackageName);
        let c = name_text(self.PackagePath);
        let d = name_text(self.AssetName);
        let e = name_text(self.AssetClass);
        let mut out: Vec<char> = Vec::new();
        append_str(&mut out, "ObjectPath ");
        append_str(&mut out, a.as_str());
        append_str(&mut out, "\n PackageName: ");
        append_str(&mut out, b.as_str());
        append_str(&mut out, "\n PackagePath: ");
        append_str(&mut out, c.as_str());
        append_str(&mut out, "\n AssetName: ");
        append_str(&mut out, d.as_str());
        append_str(&mut out, "\n AssetClass: ");
        append_str(&mut out, e.as_str());
        let r = string_from_chars(out.as_slice());
        assert(r@ =~= asset_description(a@, b@, c@, d@, e@));
        r
    }
}

} // verus!
