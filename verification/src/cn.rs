use vstd::prelude::*;
use vstd::utf8::{
    decode_utf8, encode_utf8, is_char_boundary, valid_utf8, encode_utf8_valid_utf8,
    encode_utf8_decode_utf8, decode_utf8_encode_utf8, valid_utf8_split, decode_utf8_split,
    encode_utf8_first_scalar, is_char_boundary_iff_not_is_continuation_byte,
    is_char_boundary_start_end_of_seq, is_continuation_byte, valid_first_scalar,
};

verus! {

/// A single-line text input: the text and the byte position of the cursor.
pub struct TextBox {
    pub text: String,
    pub insert_idx: usize,
}

/// The UTF-8 bytes of a text box's text.
pub open spec fn bytes_of(tb: &TextBox) -> Seq<u8> {
    encode_utf8(tb.text@)
}

/// Whether the cursor sits at a character boundary of the text.
pub open spec fn cursor_ok(tb: &TextBox) -> bool {
    is_char_boundary(bytes_of(tb), tb.insert_idx as int)
}

/// The characters before the cursor.
pub open spec fn before_cursor(tb: &TextBox) -> Seq<char> {
    decode_utf8(bytes_of(tb).subrange(0, tb.insert_idx as int))
}

/// The characters from the cursor on.
pub open spec fn after_cursor(tb: &TextBox) -> Seq<char> {
    decode_utf8(bytes_of(tb).subrange(tb.insert_idx as int, bytes_of(tb).len() as int))
}

/// The cursor position after one step to the left: it stops at the start.
pub open spec fn shifted_left(idx: usize) -> usize {
    if idx == 0 {
        0
    } else {
        (idx - 1) as usize
    }
}

/// The cursor position after one step to the right.
pub open spec fn shifted_right(idx: usize) -> usize {
    (idx + 1) as usize
}

/// Encoding a concatenation encodes each part.
proof fn lemma_encode_concat(a: Seq<char>, b: Seq<char>)
    ensures
        encode_utf8(a + b) == encode_utf8(a) + encode_utf8(b),
    decreases a.len(),
{
    if a.len() == 0 {
        assert(a + b =~= b);
        assert(encode_utf8(a) + encode_utf8(b) =~= encode_utf8(b));
    } else {
        assert((a + b)[0] == a[0]);
        assert((a + b).drop_first() =~= a.drop_first() + b);
        lemma_encode_concat(a.drop_first(), b);
        assert(encode_utf8(a + b) =~= encode_utf8(a) + encode_utf8(b));
    }
}

/// At a character boundary, the text is the characters before it followed by
/// the characters after it, and each part encodes to its bytes.
proof fn lemma_split_parts(chars: Seq<char>, idx: int)
    requires
        is_char_boundary(encode_utf8(chars), idx),
    ensures
        ({
            let bytes = encode_utf8(chars);
            let pre = bytes.subrange(0, idx);
            let post = bytes.subrange(idx, bytes.len() as int);
            &&& 0 <= idx <= bytes.len()
            &&& valid_utf8(pre)
            &&& valid_utf8(post)
            &&& encode_utf8(decode_utf8(pre)) == pre
            &&& encode_utf8(decode_utf8(post)) == post
            &&& chars == decode_utf8(pre) + decode_utf8(post)
        }),
{
    let bytes = encode_utf8(chars);
    encode_utf8_valid_utf8(chars);
    encode_utf8_decode_utf8(chars);
    valid_utf8_split(bytes, idx);
    decode_utf8_split(bytes, idx);
    decode_utf8_encode_utf8(bytes.subrange(0, idx));
    decode_utf8_encode_utf8(bytes.subrange(idx, bytes.len() as int));
}

/// The first byte of the encoding of a non-empty text is no continuation byte.
proof fn lemma_first_byte_leads(chars: Seq<char>)
    requires
        chars.len() > 0,
    ensures
        encode_utf8(chars).len() > 0,
        !is_continuation_byte(encode_utf8(chars)[0]),
{
    encode_utf8_first_scalar(chars);
    let bytes = encode_utf8(chars);
    assert(valid_first_scalar(bytes));
    assert(bytes.len() > 0);
}

/// std's `String::insert_str`: inserts `s` into `text` at byte position
/// `idx`. It panics unless `idx` is a character boundary of `text` (the end
/// included), so that is required; the bytes of the result are the bytes of
/// `text` before `idx`, then the bytes of `s`, then the rest of `text`.
#[verifier::external_body]
fn string_insert_str(text: &mut String, idx: usize, s: &str)
    requires
        is_char_boundary(encode_utf8(old(text)@), idx as int),
    ensures
        encode_utf8(final(text)@) == encode_utf8(old(text)@).subrange(0, idx as int) + encode_utf8(
            s@,
        ) + encode_utf8(old(text)@).subrange(idx as int, encode_utf8(old(text)@).len() as int),
{
    text.insert_str(idx, s);
}

impl TextBox {
    /// Inserts `word` at the cursor. The cursor does not move: it stays in
    /// front of the inserted word, still at a character boundary.
    pub fn insert(&mut self, word: &str)
        requires
            cursor_ok(old(self)),
        ensures
            final(self).text@ == before_cursor(old(self)) + word@ + after_cursor(old(self)),
            final(self).insert_idx == old(self).insert_idx,
            before_cursor(final(self)) == before_cursor(old(self)),
            after_cursor(final(self)) == word@ + after_cursor(old(self)),
            cursor_ok(final(self)),
    {
        let ghost old_chars = self.text@;
        let ghost idx = self.insert_idx as int;
        string_insert_str(&mut self.text, self.insert_idx, word);
        proof {
            let bytes = encode_utf8(old_chars);
            let pre = bytes.subrange(0, idx);
            let post = bytes.subrange(idx, bytes.len() as int);
            lemma_split_parts(old_chars, idx);
            let p = decode_utf8(pre);
            let q = decode_utf8(post);
            lemma_encode_concat(p, word@);
            lemma_encode_concat(p + word@, q);
            let expected = p + word@ + q;
            assert(encode_utf8(expected) == encode_utf8(self.text@));
            encode_utf8_decode_utf8(expected);
            encode_utf8_decode_utf8(self.text@);
            assert(self.text@ == expected);
            let nb = encode_utf8(self.text@);
            let w = encode_utf8(word@);
            assert(nb =~= pre + w + post);
            assert(nb.subrange(0, idx) =~= pre);
            assert(nb.subrange(idx, nb.len() as int) =~= w + post);
            lemma_encode_concat(word@, q);
            assert(encode_utf8(word@ + q) == w + post);
            encode_utf8_decode_utf8(word@ + q);
            assert(decode_utf8(w + post) == word@ + q);
            encode_utf8_valid_utf8(self.text@);
            if idx == nb.len() {
                is_char_boundary_start_end_of_seq(nb);
            } else if word@.len() > 0 {
                lemma_first_byte_leads(word@);
                assert(nb[idx] == w[0]);
                is_char_boundary_iff_not_is_continuation_byte(nb, idx);
            } else {
                assert(w.len() == 0) by {
                    assert(word@ =~= Seq::<char>::empty());
                }
                assert(nb =~= bytes);
                if idx == 0 {
                } else {
                    assert(idx < bytes.len());
                }
            }
        }
    }

    /// Moves the cursor one byte to the left, stopping at the start.
    pub fn shift_left(&mut self)
        ensures
            final(self).insert_idx == shifted_left(old(self).insert_idx),
            final(self).text@ == old(self).text@,
    {
        if self.insert_idx == 0 {
            return;
        }
        self.insert_idx -= 1;
    }

    /// Moves the cursor one byte to the right.
    pub fn shift_right(&mut self)
        requires
            old(self).insert_idx < usize::MAX,
        ensures
            final(self).insert_idx == shifted_right(old(self).insert_idx),
            final(self).text@ == old(self).text@,
    {
        self.insert_idx += 1;
    }

    /// The text before the cursor and the text from the cursor on, as the
    /// text box draws them on either side of its cursor.
    pub fn split_at_cursor(&self) -> (parts: (&str, &str))
        requires
            cursor_ok(self),
        ensures
            parts.0@ == before_cursor(self),
            parts.1@ == after_cursor(self),
            self.text@ == parts.0@ + parts.1@,
    {
        let s = self.text.as_str();
        proof {
            lemma_split_parts(self.text@, self.insert_idx as int);
        }
        let parts = s.split_at(self.insert_idx);
        proof {
            encode_utf8_decode_utf8(parts.0@);
            encode_utf8_decode_utf8(parts.1@);
        }
        parts
    }
}

/// A right shift moves the cursor exactly one byte right; a left shift one
/// byte left, except at the start, where it stays.
pub proof fn law_shift_by_one_byte(idx: usize)
    ensures
        idx < usize::MAX ==> shifted_right(idx) == idx + 1,
        idx > 0 ==> shifted_left(idx) == idx - 1,
        idx == 0 ==> shifted_left(idx) == 0,
{
}

/// Moving the cursor right and then left puts it back where it was.
pub proof fn law_shift_right_then_left(idx: usize)
    requires
        idx < usize::MAX,
    ensures
        shifted_left(shifted_right(idx)) == idx,
{
}

/// Moving the cursor left and then right puts it back where it was, unless
/// it was already at the start.
pub proof fn law_shift_left_then_right(idx: usize)
    requires
        idx > 0,
    ensures
        shifted_right(shifted_left(idx)) == idx,
{
}

/// At a character boundary the text is the part before the cursor followed
/// by the part after it, so inserting the empty word changes nothing.
pub proof fn law_cursor_splits_text(tb: &TextBox)
    requires
        cursor_ok(tb),
    ensures
        tb.text@ == before_cursor(tb) + after_cursor(tb),
        before_cursor(tb) + Seq::<char>::empty() + after_cursor(tb) == tb.text@,
{
    lemma_split_parts(tb.text@, tb.insert_idx as int);
    assert(before_cursor(tb) + Seq::<char>::empty() =~= before_cursor(tb));
}

} // verus!
