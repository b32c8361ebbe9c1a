//! Text fields of the wire protocol: printable ASCII, at most 64 bytes,
//! sent in a fixed field of 64 bytes that is filled up with spaces.

use vstd::prelude::*;

verus! {

/// Width of a text field on the wire.
pub const TEXT_WIDTH: usize = 64;

/// The byte that fills a text field up to its width.
pub const PAD: u8 = 0x20;

/// A byte that may stand in a text field: printable ASCII.
pub open spec fn is_printable(b: u8) -> bool {
    0x20 <= b <= 0x7e
}

/// A text as messages carry it: printable, short enough for a field, and
/// not ending in a space (the field could not tell it from padding).
pub open spec fn is_text(s: Seq<u8>) -> bool {
    &&& s.len() <= TEXT_WIDTH
    &&& forall|i: int| 0 <= i < s.len() ==> is_printable(#[trigger] s[i])
    &&& s.len() > 0 ==> s.last() != PAD
}

/// A well-formed field: exactly 64 printable bytes.
pub open spec fn is_field(f: Seq<u8>) -> bool {
    &&& f.len() == TEXT_WIDTH
    &&& forall|i: int| 0 <= i < f.len() ==> is_printable(#[trigger] f[i])
}

/// The field that carries `s`: `s` itself, then spaces.
pub open spec fn padded(s: Seq<u8>) -> Seq<u8> {
    Seq::new(
        TEXT_WIDTH as nat,
        |i: int|
            if i < s.len() {
                s[i]
            } else {
                PAD
            },
    )
}

/// The field of 64 bytes that starts at `at`.
pub open spec fn field_at(bytes: Seq<u8>, at: int) -> Seq<u8> {
    bytes.subrange(at, at + TEXT_WIDTH)
}

/// `f` without the spaces at its end.
pub open spec fn unpadded(f: Seq<u8>) -> Seq<u8>
    decreases f.len(),
{
    if f.len() > 0 && f.last() == PAD {
        unpadded(f.drop_last())
    } else {
        f
    }
}

/// Stripping the spaces leaves a prefix that does not end in a space and
/// is followed by spaces only.
pub proof fn lemma_unpadded_prefix(f: Seq<u8>)
    ensures
        unpadded(f).len() <= f.len(),
        unpadded(f) == f.subrange(0, unpadded(f).len() as int),
        unpadded(f).len() > 0 ==> unpadded(f).last() != PAD,
        forall|i: int| unpadded(f).len() <= i < f.len() ==> f[i] == PAD,
    decreases f.len(),
{
    if f.len() > 0 && f.last() == PAD {
        let g = f.drop_last();
        lemma_unpadded_prefix(g);
        assert(unpadded(f) =~= f.subrange(0, unpadded(f).len() as int));
        assert forall|i: int| unpadded(f).len() <= i < f.len() implies f[i] == PAD by {
            if i < g.len() {
                assert(g[i] == f[i]);
            }
        }
    } else {
        assert(f =~= f.subrange(0, f.len() as int));
    }
}

/// A prefix that does not end in a space, followed by spaces only, is
/// what stripping yields.
pub proof fn lemma_unpadded_unique(f: Seq<u8>, n: int)
    requires
        0 <= n <= f.len(),
        n > 0 ==> f[n - 1] != PAD,
        forall|i: int| n <= i < f.len() ==> f[i] == PAD,
    ensures
        unpadded(f) == f.subrange(0, n),
    decreases f.len(),
{
    if f.len() > n {
        let g = f.drop_last();
        lemma_unpadded_unique(g, n);
        assert(g.subrange(0, n) =~= f.subrange(0, n));
    } else {
        assert(f =~= f.subrange(0, n));
    }
}

/// Every text comes back out of its field.
pub proof fn lemma_text_round_trip(s: Seq<u8>)
    requires
        is_text(s),
    ensures
        is_field(padded(s)),
        unpadded(padded(s)) == s,
{
    let f = padded(s);
    lemma_unpadded_unique(f, s.len() as int);
    assert(f.subrange(0, s.len() as int) =~= s);
}

/// Every well-formed field holds a text, and that text fills the field
/// back in.
pub proof fn lemma_field_round_trip(f: Seq<u8>)
    requires
        is_field(f),
    ensures
        is_text(unpadded(f)),
        padded(unpadded(f)) == f,
{
    lemma_unpadded_prefix(f);
    let s = unpadded(f);
    assert forall|i: int| 0 <= i < s.len() implies is_printable(#[trigger] s[i]) by {
        assert(s[i] == f[i]);
    }
    assert(padded(s) =~= f);
}

/// The byte that stands in for one that may not stand in a text.
pub const STAND_IN: u8 = 0x3f;

/// `s` cut to the width of a field, with a question mark for every byte
/// that is not printable.
pub open spec fn printable_front(s: Seq<u8>) -> Seq<u8> {
    Seq::new(
        if s.len() <= TEXT_WIDTH {
            s.len()
        } else {
            TEXT_WIDTH as nat
        },
        |i: int|
            if is_printable(s[i]) {
                s[i]
            } else {
                STAND_IN
            },
    )
}

/// The text nearest to `s`: cut to the width of a field, with a
/// question mark for every byte that is not printable, and without
/// spaces at the end.
pub open spec fn fitted(s: Seq<u8>) -> Seq<u8> {
    unpadded(printable_front(s))
}

/// Fitting always yields a text, and leaves a text as it is.
pub proof fn lemma_fitted_is_text(s: Seq<u8>)
    ensures
        is_text(fitted(s)),
        is_text(s) ==> fitted(s) == s,
{
    let front = printable_front(s);
    lemma_unpadded_prefix(front);
    let t = fitted(s);
    assert forall|i: int| 0 <= i < t.len() implies is_printable(#[trigger] t[i]) by {
        assert(t[i] == front[i]);
    }
    if is_text(s) {
        assert(front =~= s);
        lemma_unpadded_unique(s, s.len() as int);
        assert(s.subrange(0, s.len() as int) =~= s);
    }
}

/// A text of the protocol.
#[derive(Debug, PartialEq, Eq)]
pub struct Text {
    bytes: Vec<u8>,
}

impl View for Text {
    type V = Seq<u8>;

    closed spec fn view(&self) -> Seq<u8> {
        self.bytes@
    }
}

impl Clone for Text {
    fn clone(&self) -> (copy: Self)
        ensures
            copy@ == self@,
    {
        self.duplicate()
    }
}

impl Text {
    #[verifier::type_invariant]
    spec fn inv(self) -> bool {
        is_text(self.bytes@)
    }

    /// Takes `bytes` as a text if they are one.
    pub fn new(bytes: Vec<u8>) -> (text: Option<Text>)
        ensures
            text is Some <==> is_text(bytes@),
            text matches Some(t) ==> t@ == bytes@,
    {
        let n = bytes.len();
        if n > TEXT_WIDTH {
            return None;
        }
        let mut i: usize = 0;
        while i < n
            invariant
                i <= n,
                n == bytes.len(),
                forall|j: int| 0 <= j < i ==> is_printable(#[trigger] bytes[j]),
            decreases n - i,
        {
            if bytes[i] < 0x20 || bytes[i] > 0x7e {
                assert(!is_printable(bytes@[i as int]));
                return None;
            }
            i += 1;
        }
        if n > 0 && bytes[n - 1] == PAD {
            return None;
        }
        Some(Text { bytes })
    }

    /// The text nearest to `bytes`, whatever they are: cut to the
    /// width of a field, with a question mark for every byte that is
    /// not printable, and without spaces at the end.
    pub fn fitting(bytes: &[u8]) -> (text: Text)
        ensures
            text@ == fitted(bytes@),
            is_text(bytes@) ==> text@ == bytes@,
    {
        let ghost front = printable_front(bytes@);
        let n = if bytes.len() <= TEXT_WIDTH {
            bytes.len()
        } else {
            TEXT_WIDTH
        };
        let mut out: Vec<u8> = Vec::new();
        let mut i: usize = 0;
        while i < n
            invariant
                i <= n,
                n <= bytes.len(),
                n == front.len(),
                front == printable_front(bytes@),
                out@ == front.subrange(0, i as int),
            decreases n - i,
        {
            let b = bytes[i];
            let kept = if b < 0x20 || b > 0x7e {
                STAND_IN
            } else {
                b
            };
            out.push(kept);
            assert(out@ =~= front.subrange(0, i + 1));
            i += 1;
        }
        assert(out@ =~= front);
        while out.len() > 0 && out[out.len() - 1] == PAD
            invariant
                out.len() <= front.len(),
                out@ == front.subrange(0, out.len() as int),
                forall|j: int| out.len() <= j < front.len() ==> front[j] == PAD,
            decreases out.len(),
        {
            out.pop();
            assert(out@ =~= front.subrange(0, out.len() as int));
        }
        proof {
            lemma_unpadded_unique(front, out.len() as int);
            lemma_fitted_is_text(bytes@);
        }
        Text { bytes: out }
    }

    /// The empty text.
    pub fn empty() -> (text: Text)
        ensures
            text@ == Seq::<u8>::empty(),
    {
        Text { bytes: Vec::new() }
    }

    /// The bytes of the text.
    pub fn as_bytes(&self) -> (bytes: &Vec<u8>)
        ensures
            bytes@ == self@,
            is_text(self@),
    {
        proof {
            use_type_invariant(self);
        }
        &self.bytes
    }

    /// A copy of the text.
    pub fn duplicate(&self) -> (copy: Text)
        ensures
            copy@ == self@,
    {
        proof {
            use_type_invariant(self);
        }
        let mut bytes: Vec<u8> = Vec::new();
        let mut i: usize = 0;
        while i < self.bytes.len()
            invariant
                i <= self.bytes.len(),
                bytes@ == self.bytes@.subrange(0, i as int),
            decreases self.bytes.len() - i,
        {
            bytes.push(self.bytes[i]);
            assert(bytes@ =~= self.bytes@.subrange(0, i + 1));
            i += 1;
        }
        assert(bytes@ =~= self.bytes@);
        Text { bytes }
    }

    /// Reads the text held by the 64-byte field that starts at `at`.
    /// Fails exactly when `bytes` end before the field does, or the
    /// field holds a byte that is not printable.
    pub fn from_field(bytes: &[u8], at: usize) -> (text: Option<Text>)
        ensures
            text is Some <==> at + TEXT_WIDTH <= bytes@.len() && is_field(
                field_at(bytes@, at as int),
            ),
            text matches Some(t) ==> t@ == unpadded(field_at(bytes@, at as int)),
    {
        if bytes.len() < TEXT_WIDTH || at > bytes.len() - TEXT_WIDTH {
            return None;
        }
        let ghost field = bytes@.subrange(at as int, at + TEXT_WIDTH);
        let mut i: usize = 0;
        while i < TEXT_WIDTH
            invariant
                i <= TEXT_WIDTH,
                at + TEXT_WIDTH <= bytes.len(),
                field == bytes@.subrange(at as int, at + TEXT_WIDTH),
                forall|j: int| 0 <= j < i ==> is_printable(#[trigger] field[j]),
            decreases TEXT_WIDTH - i,
        {
            let b = bytes[at + i];
            assert(b == field[i as int]);
            if b < 0x20 || b > 0x7e {
                return None;
            }
            i += 1;
        }
        let mut n: usize = TEXT_WIDTH;
        while n > 0 && bytes[at + n - 1] == PAD
            invariant
                n <= TEXT_WIDTH,
                at + TEXT_WIDTH <= bytes.len(),
                field == bytes@.subrange(at as int, at + TEXT_WIDTH),
                forall|j: int| n <= j < TEXT_WIDTH ==> field[j] == PAD,
            decreases n,
        {
            assert(bytes[at + n - 1] == field[n - 1]);
            n -= 1;
        }
        let mut out: Vec<u8> = Vec::new();
        let mut k: usize = 0;
        while k < n
            invariant
                k <= n <= TEXT_WIDTH,
                at + TEXT_WIDTH <= bytes.len(),
                field == bytes@.subrange(at as int, at + TEXT_WIDTH),
                out@ == field.subrange(0, k as int),
            decreases n - k,
        {
            out.push(bytes[at + k]);
            assert(out@ =~= field.subrange(0, k + 1));
            k += 1;
        }
        proof {
            if n > 0 {
                assert(bytes[at + n - 1] == field[n - 1]);
            }
            lemma_unpadded_unique(field, n as int);
            lemma_field_round_trip(field);
        }
        Some(Text { bytes: out })
    }

    /// Appends the 64-byte field that carries the text.
    pub fn write_field(&self, out: &mut Vec<u8>)
        ensures
            final(out)@ == old(out)@ + padded(self@),
    {
        proof {
            use_type_invariant(self);
        }
        let n = self.bytes.len();
        let mut i: usize = 0;
        while i < TEXT_WIDTH
            invariant
                i <= TEXT_WIDTH,
                n == self.bytes.len(),
                n <= TEXT_WIDTH,
                out@ == old(out)@ + padded(self@).subrange(0, i as int),
            decreases TEXT_WIDTH - i,
        {
            let b = if i < n {
                self.bytes[i]
            } else {
                PAD
            };
            out.push(b);
            assert(out@ =~= old(out)@ + padded(self@).subrange(0, i + 1));
            i += 1;
        }
        assert(padded(self@).subrange(0, TEXT_WIDTH as int) =~= padded(self@));
    }
}

} // verus!
