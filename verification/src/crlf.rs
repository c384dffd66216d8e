//! Line-ending normalisation: every carriage return is taken out of a byte
//! buffer, whatever follows it, so that `"\r\n"` becomes `"\n"`.
//!
//! The work is done in place. The positions of the carriage returns are found
//! first; the stretches between them are then moved towards the front, each by
//! the number of carriage returns before it.

use vstd::prelude::*;
use vstd::utf8::{decode_utf8, encode_utf8_decode_utf8, encode_utf8_valid_utf8, valid_utf8};
use crate::utf8::lemma_without_cr_encode;

verus! {

/// The carriage return byte.
pub const CR: u8 = 13;

/// The test that keeps every byte but the carriage return.
pub open spec fn not_cr() -> spec_fn(u8) -> bool {
    |b: u8| b != CR
}

/// `s` without its carriage returns.
pub open spec fn without_cr(s: Seq<u8>) -> Seq<u8> {
    s.filter(not_cr())
}

/// The test that keeps every character but the carriage return.
pub open spec fn not_cr_char() -> spec_fn(char) -> bool {
    |c: char| c != '\r'
}

/// `s` without its carriage return characters.
pub open spec fn without_cr_chars(s: Seq<char>) -> Seq<char> {
    s.filter(not_cr_char())
}

/// A sequence that holds no carriage return is left as it is.
pub proof fn lemma_without_cr_unchanged(s: Seq<u8>)
    requires
        forall|i: int| 0 <= i < s.len() ==> s[i] != CR,
    ensures
        without_cr(s) == s,
    decreases s.len(),
{
    reveal(Seq::filter);
    if s.len() > 0 {
        lemma_without_cr_unchanged(s.drop_last());
        assert(s.drop_last().push(s.last()) =~= s);
    }
}

/// No carriage return is left in the result.
pub proof fn lemma_without_cr_holds_none(s: Seq<u8>)
    ensures
        forall|i: int| 0 <= i < without_cr(s).len() ==> without_cr(s)[i] != CR,
{
    assert forall|i: int| 0 <= i < without_cr(s).len() implies without_cr(s)[i] != CR by {
        s.lemma_filter_pred(not_cr(), i);
    }
}

/// Normalising twice changes nothing more than normalising once.
pub proof fn lemma_without_cr_idempotent(s: Seq<u8>)
    ensures
        without_cr(without_cr(s)) == without_cr(s),
{
    lemma_without_cr_holds_none(s);
    lemma_without_cr_unchanged(without_cr(s));
}

/// What is kept depends on each byte alone, not on its neighbours: the
/// result of two pieces is the two results, one after the other.
pub proof fn lemma_without_cr_concat(a: Seq<u8>, b: Seq<u8>)
    ensures
        without_cr(a + b) == without_cr(a) + without_cr(b),
{
    Seq::filter_distributes_over_add(a, b, not_cr());
}

/// `positions` lists, in rising order, exactly the indices at which
/// `haystack` holds `needle`.
pub open spec fn lists_occurrences(positions: Seq<usize>, needle: u8, haystack: Seq<u8>) -> bool {
    &&& forall|i: int|
        0 <= i < positions.len() ==> (#[trigger] positions[i]) < haystack.len()
            && haystack[positions[i] as int] == needle
    &&& forall|i: int, j: int|
        0 <= i < j < positions.len() ==> (#[trigger] positions[i]) < (#[trigger] positions[j])
    &&& forall|k: int|
        0 <= k < haystack.len() && #[trigger] haystack[k] == needle ==> exists|i: int|
            0 <= i < positions.len() && #[trigger] positions[i] == k
}

/// `memchr::memchr_iter`, its items appended to `matches`: the iterator
/// yields every index at which `haystack` holds `needle`, from the lowest to
/// the highest.
#[verifier::external_body]
fn extend_with_occurrences(matches: &mut Vec<usize>, needle: u8, haystack: &[u8])
    ensures
        final(matches)@.len() >= old(matches)@.len(),
        final(matches)@.take(old(matches)@.len() as int) == old(matches)@,
        lists_occurrences(final(matches)@.skip(old(matches)@.len() as int), needle, haystack@),
{
    matches.extend(memchr::memchr_iter(needle, haystack))
}

/// `matches` rises strictly and stays within a buffer of `len` bytes; only
/// its last entry may be `len` itself.
pub open spec fn rising_within(matches: Seq<usize>, len: int) -> bool {
    &&& matches.len() >= 1
    &&& forall|i: int, j: int|
        0 <= i < j < matches.len() ==> (#[trigger] matches[i]) < (#[trigger] matches[j])
    &&& matches.last() <= len
}

/// The bytes of `s` in front of position `matches[t]`, without the bytes at
/// the positions `matches[0]` to `matches[t - 1]`.
pub open spec fn kept(s: Seq<u8>, matches: Seq<usize>, t: int) -> Seq<u8>
    decreases t,
{
    if t <= 0 {
        s.take(matches[0] as int)
    } else {
        kept(s, matches, t - 1) + s.subrange(matches[t - 1] + 1, matches[t] as int)
    }
}

/// `kept` drops one byte for each position it passes.
pub proof fn lemma_kept_len(s: Seq<u8>, matches: Seq<usize>, t: int)
    requires
        rising_within(matches, s.len() as int),
        0 <= t < matches.len(),
    ensures
        kept(s, matches, t).len() == matches[t] - t,
    decreases t,
{
    if t > 0 {
        lemma_kept_len(s, matches, t - 1);
    }
}

/// Closes the gaps that the bytes at the positions in `matches` would leave.
///
/// All but the last entry of `matches` are positions of bytes to drop; the
/// last entry marks the end of the data. Each stretch between two entries is
/// moved to the front by the number of entries before it. Afterwards the
/// buffer begins with the bytes that are kept, in their order; the bytes
/// behind them are as they were.
pub fn remove_crlf_from_buff(buf: &mut [u8], matches: &[usize])
    requires
        rising_within(matches@, old(buf)@.len() as int),
    ensures
        final(buf)@.len() == old(buf)@.len(),
        final(buf)@.take(matches@.last() - (matches@.len() - 1)) == kept(
            old(buf)@,
            matches@,
            matches@.len() - 1,
        ),
        final(buf)@.skip(matches@.last() - (matches@.len() - 1)) == old(buf)@.skip(
            matches@.last() - (matches@.len() - 1),
        ),
{
    let ghost s = buf@;
    let ghost m = matches@;
    let mut i: usize = 0;
    proof {
        lemma_kept_len(s, m, 0);
    }
    while i < matches.len() - 1
        invariant
            s == old(buf)@,
            m == matches@,
            rising_within(m, s.len() as int),
            0 <= i <= m.len() - 1,
            buf@.len() == s.len(),
            kept(s, m, i as int).len() == m[i as int] - i,
            buf@.take(m[i as int] - i) == kept(s, m, i as int),
            buf@.skip(m[i as int] - i) == s.skip(m[i as int] - i),
        decreases m.len() - i,
    {
        let current = matches[i];
        let next = matches[i + 1];
        let mut j: usize = current + 1;
        proof {
            lemma_kept_len(s, m, i + 1);
            assert(s.subrange(current + 1, j as int) =~= Seq::<u8>::empty());
            assert(buf@.take(j - (i + 1)) =~= kept(s, m, i as int) + s.subrange(
                current + 1,
                j as int,
            ));
        }
        while j < next
            invariant
                m == matches@,
                rising_within(m, s.len() as int),
                0 <= i < m.len() - 1,
                current == m[i as int],
                next == m[i + 1],
                current < j <= next,
                next <= s.len(),
                i <= current,
                buf@.len() == s.len(),
                kept(s, m, i as int).len() == current - i,
                buf@.take(j - (i + 1)) == kept(s, m, i as int) + s.subrange(current + 1, j as int),
                buf@.skip(j - (i + 1)) == s.skip(j - (i + 1)),
            decreases next - j,
        {
            let ghost before = buf@;
            let byte = buf[j];
            assert(byte == s[j as int]) by {
                assert(before.skip(j - (i + 1))[i + 1] == s.skip(j - (i + 1))[i + 1]);
            }
            buf[j - (i + 1)] = byte;
            proof {
                let d = j - (i + 1);
                assert(buf@ == before.update(d, byte));
                assert(buf@.take(d + 1) =~= before.take(d).push(byte));
                assert(s.subrange(current + 1, j + 1) =~= s.subrange(current + 1, j as int).push(
                    byte,
                ));
                assert(buf@.take(d + 1) =~= kept(s, m, i as int) + s.subrange(current + 1, j + 1));
                let after = buf@.skip(d + 1);
                assert forall|k: int| 0 <= k < after.len() implies #[trigger] after[k] == s.skip(
                    d + 1,
                )[k] by {
                    assert(before.skip(d)[k + 1] == s.skip(d)[k + 1]);
                }
                assert(after =~= s.skip(d + 1));
            }
            j = j + 1;
        }
        i = i + 1;
    }
}

/// Where `matches` lists the carriage returns of `s` and then its length,
/// what is kept in front of `matches[t]` is that part of `s` without its
/// carriage returns.
proof fn lemma_kept_without_cr(s: Seq<u8>, matches: Seq<usize>, t: int)
    requires
        matches.len() >= 1,
        lists_occurrences(matches.drop_last(), CR, s),
        matches.last() == s.len(),
        0 <= t < matches.len(),
    ensures
        rising_within(matches, s.len() as int),
        kept(s, matches, t) == without_cr(s.take(matches[t] as int)),
    decreases t,
{
    let found = matches.drop_last();
    assert forall|i: int, j: int| 0 <= i < j < matches.len() implies (#[trigger] matches[i]) < (
    #[trigger] matches[j]) by {
        assert(matches[i] == found[i]);
        if j < matches.len() - 1 {
            assert(matches[j] == found[j]);
        }
    }
    let upto = matches[t] as int;
    let from = if t == 0 {
        0
    } else {
        matches[t - 1] + 1
    };
    let stretch = s.subrange(from, upto);
    assert forall|k: int| 0 <= k < stretch.len() implies stretch[k] != CR by {
        if s[from + k] == CR {
            let i = choose|i: int| 0 <= i < found.len() && #[trigger] found[i] == from + k;
            assert(matches[i] == found[i]);
            if t > 0 && i <= t - 1 {
                assert(matches[i] <= matches[t - 1]);
            } else {
                assert(matches[t] <= matches[i]);
            }
        }
    }
    lemma_without_cr_unchanged(stretch);
    if t == 0 {
        assert(stretch =~= s.take(upto));
    } else {
        lemma_kept_without_cr(s, matches, t - 1);
        let before = s.take(matches[t - 1] as int);
        let dropped = seq![s[matches[t - 1] as int]];
        assert(found[t - 1] == matches[t - 1]);
        assert(without_cr(dropped) =~= Seq::<u8>::empty()) by {
            reveal_with_fuel(Seq::filter, 2);
        }
        assert(s.take(upto) =~= before + dropped + stretch);
        lemma_without_cr_concat(before + dropped, stretch);
        lemma_without_cr_concat(before, dropped);
        assert(without_cr(before) + Seq::<u8>::empty() =~= without_cr(before));
    }
}

/// The working state of the normaliser: the positions found in the buffer it
/// was last given, followed by that buffer's length.
pub struct RemoveCrlf {
    pub matches: Vec<usize>,
}

impl RemoveCrlf {
    /// A normaliser that has seen no buffer yet.
    pub fn new() -> (filter: RemoveCrlf)
        ensures
            filter.matches@.len() == 0,
    {
        RemoveCrlf { matches: Vec::new() }
    }

    /// Takes every carriage return out of `buf` and returns how many bytes
    /// are left. Those bytes stand at the front of `buf`, in their order; the
    /// bytes behind them are as they were.
    pub fn strip(&mut self, buf: &mut [u8]) -> (len: usize)
        ensures
            len == without_cr(old(buf)@).len(),
            final(buf)@.len() == old(buf)@.len(),
            final(buf)@.take(len as int) == without_cr(old(buf)@),
            final(buf)@.skip(len as int) == old(buf)@.skip(len as int),
            final(self).matches@.len() >= 1,
            lists_occurrences(final(self).matches@.drop_last(), CR, old(buf)@),
            final(self).matches@.last() == old(buf)@.len(),
    {
        let ghost s = buf@;
        let res = buf.len();
        self.matches.clear();
        extend_with_occurrences(&mut self.matches, CR, buf);
        let ghost found = self.matches@;
        self.matches.push(res);
        proof {
            assert(found.skip(0) =~= found);
            assert(self.matches@.drop_last() =~= found);
            lemma_kept_without_cr(s, self.matches@, self.matches@.len() - 1);
            lemma_kept_len(s, self.matches@, self.matches@.len() - 1);
            assert(s.take(s.len() as int) =~= s);
        }
        remove_crlf_from_buff(buf, self.matches.as_slice());
        res - (self.matches.len() - 1)
    }
}

/// The error of `String::from_utf8`, opaque to the verifier.
#[verifier::external_type_specification]
#[verifier::external_body]
pub struct ExFromUtf8Error(std::string::FromUtf8Error);

/// `String::from_utf8` succeeds exactly on valid UTF-8, and the string it
/// gives holds the characters those bytes encode.
pub assume_specification[ String::from_utf8 ](vec: Vec<u8>) -> (r: Result<
    String,
    std::string::FromUtf8Error,
>)
    ensures
        r is Ok <==> valid_utf8(vec@),
        r matches Ok(s) ==> s@ == decode_utf8(vec@),
;

/// `text` without its carriage returns, as text from outside is normalised
/// before it is inserted. The work is done on the bytes, by the same pass
/// that normalises a loaded file.
pub fn remove_cr(text: &str) -> (normalized: String)
    ensures
        normalized@ == without_cr_chars(text@),
{
    let mut bytes = text.as_bytes_vec();
    let mut filter = RemoveCrlf::new();
    let len = filter.strip(bytes.as_mut_slice());
    bytes.truncate(len);
    proof {
        lemma_without_cr_encode(text@);
        encode_utf8_valid_utf8(without_cr_chars(text@));
        encode_utf8_decode_utf8(without_cr_chars(text@));
    }
    match String::from_utf8(bytes) {
        Ok(normalized) => normalized,
        Err(_) => vstd::pervasive::unreached(),
    }
}

} // verus!
