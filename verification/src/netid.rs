//! The AMS network identifier: six bytes, written as dotted decimals.

use crate::text::{decimal, decimals, digit_char, join_decimal, joined};
use vstd::prelude::*;
use vstd::std_specs::cmp::PartialEqSpecImpl;

verus! {

/// A 6-byte AMS network identifier. The identifier of six zero bytes stands
/// for "not set".
#[derive(Clone, Copy, Debug)]
pub struct AmsNetId(pub [u8; 6]);

/// Why a string is not an AMS network identifier.
#[derive(Clone, Copy, Debug, PartialEq, Eq, Structural)]
pub enum FormatError {
    /// One of the first six parts is not a byte in decimal.
    InvalidByte,
    /// The first six parts are bytes, and more parts follow.
    TooManyParts,
}

/// Whether `c` is a decimal digit.
pub open spec fn is_digit(c: char) -> bool {
    '0' as int <= c as int <= '9' as int
}

/// The value of a decimal digit.
pub open spec fn digit_value(c: char) -> nat
    recommends
        is_digit(c),
{
    (c as int - '0' as int) as nat
}

/// Whether `s` holds decimal digits only.
pub open spec fn all_digits(s: Seq<char>) -> bool {
    forall|i: int| 0 <= i < s.len() ==> is_digit(#[trigger] s[i])
}

/// The number that a string of decimal digits spells.
pub open spec fn digits_value(s: Seq<char>) -> nat
    recommends
        all_digits(s),
    decreases s.len(),
{
    if s.len() == 0 {
        0
    } else {
        10 * digits_value(s.drop_last()) + digit_value(s.last())
    }
}

/// `s` without a plus sign in front.
pub open spec fn unsigned_part(s: Seq<char>) -> Seq<char> {
    if s.len() > 0 && s[0] == '+' {
        s.drop_first()
    } else {
        s
    }
}

/// The byte that `s` spells: decimal digits, at least one, with or without a
/// plus sign in front, of a value up to 255.
pub open spec fn parse_byte(s: Seq<char>) -> Option<u8> {
    let d = unsigned_part(s);
    if d.len() > 0 && all_digits(d) && digits_value(d) <= 255 {
        Some(digits_value(d) as u8)
    } else {
        None
    }
}

/// The parts of `s` between its dots. A string without a dot is one part, the
/// empty string too.
pub open spec fn split_dot(s: Seq<char>) -> Seq<Seq<char>>
    decreases s.len(),
{
    if s.len() == 0 {
        seq![Seq::empty()]
    } else {
        let before = split_dot(s.drop_last());
        if s.last() == '.' {
            before.push(Seq::empty())
        } else {
            before.update(before.len() - 1, before.last().push(s.last()))
        }
    }
}

/// A string has at least one part, and one more than it has dots.
pub proof fn lemma_split_len(s: Seq<char>)
    ensures
        split_dot(s).len() >= 1,
    decreases s.len(),
{
    if s.len() > 0 {
        lemma_split_len(s.drop_last());
    }
}

/// The identifier that one more part makes of `so_far`, where `so_far` came
/// from the `index` parts before it.
pub open spec fn fill_one(so_far: Result<Seq<u8>, FormatError>, index: int, part: Seq<char>) -> Result<
    Seq<u8>,
    FormatError,
> {
    match so_far {
        Err(e) => Err(e),
        Ok(bytes) => if index >= 6 {
            Err(FormatError::TooManyParts)
        } else {
            match parse_byte(part) {
                None => Err(FormatError::InvalidByte),
                Some(b) => Ok(bytes.update(index, b)),
            }
        },
    }
}

/// Six bytes filled from the left with the bytes that `parts` spell; a byte
/// that no part stands for is 1. The first part that is no byte, or the
/// seventh part, is the error.
pub open spec fn fill(parts: Seq<Seq<char>>) -> Result<Seq<u8>, FormatError>
    decreases parts.len(),
{
    if parts.len() == 0 {
        Ok(seq![1u8, 1u8, 1u8, 1u8, 1u8, 1u8])
    } else {
        fill_one(fill(parts.drop_last()), parts.len() - 1, parts.last())
    }
}

/// The identifier that the string `s` spells.
pub open spec fn parse_netid(s: Seq<char>) -> Result<Seq<u8>, FormatError> {
    fill(split_dot(s))
}

/// An identifier's bytes in decimal, with dots between them.
pub open spec fn dotted(bytes: Seq<u8>) -> Seq<char> {
    joined(decimals(bytes), seq!['.'])
}

impl PartialEq for AmsNetId {
    fn eq(&self, other: &AmsNetId) -> (same: bool) {
        let same = self.0[0] == other.0[0] && self.0[1] == other.0[1] && self.0[2] == other.0[2]
            && self.0[3] == other.0[3] && self.0[4] == other.0[4] && self.0[5] == other.0[5];
        proof {
            if same {
                assert(self.0@ =~= other.0@);
            }
        }
        same
    }
}

impl PartialEqSpecImpl for AmsNetId {
    open spec fn obeys_eq_spec() -> bool {
        true
    }

    open spec fn eq_spec(&self, other: &AmsNetId) -> bool {
        self.0@ == other.0@
    }
}

impl Eq for AmsNetId {

}

impl core::str::FromStr for AmsNetId {
    type Err = FormatError;

    /// Reads an identifier from its dotted form, as `AmsNetId::from_str`
    /// does.
    fn from_str(s: &str) -> (parsed: Result<AmsNetId, FormatError>)
        ensures
            match parse_netid(s@) {
                Ok(bytes) => parsed matches Ok(id) && id.0@ == bytes,
                Err(e) => parsed == Err::<AmsNetId, FormatError>(e),
            },
    {
        AmsNetId::from_str(s)
    }
}

impl FormatError {
    /// The words for the error.
    pub fn message(&self) -> (words: &'static str)
        ensures
            words@ == "invalid NetID string"@,
    {
        "invalid NetID string"
    }
}

impl Default for AmsNetId {
    fn default() -> (id: AmsNetId)
        ensures
            id.0@ == seq![0u8, 0u8, 0u8, 0u8, 0u8, 0u8],
    {
        AmsNetId([0, 0, 0, 0, 0, 0])
    }
}

/// What is known of the part that is being read.
struct PartState {
    /// Nothing of the part was read yet.
    fresh: bool,
    /// A digit was read.
    digits: bool,
    /// Something other than digits after an optional plus sign, or too large
    /// a value.
    bad: bool,
    /// The value of the digits, while it is a byte.
    val: u16,
}

impl PartState {
    spec fn describes(&self, part: Seq<char>) -> bool {
        let d = unsigned_part(part);
        &&& self.fresh == (part.len() == 0)
        &&& self.digits == (d.len() > 0)
        &&& self.bad == !(all_digits(d) && digits_value(d) <= 255)
        &&& !self.bad ==> self.val == digits_value(d)
    }

    fn start() -> (st: PartState)
        ensures
            st.describes(Seq::empty()),
    {
        PartState { fresh: true, digits: false, bad: false, val: 0 }
    }

    fn read(&self, c: char, Ghost(part): Ghost<Seq<char>>) -> (st: PartState)
        requires
            self.describes(part),
            c != '.',
        ensures
            st.describes(part.push(c)),
    {
        let ghost d = unsigned_part(part);
        let ghost next = part.push(c);
        if self.fresh && c == '+' {
            assert(unsigned_part(next) =~= Seq::<char>::empty());
            PartState { fresh: false, digits: false, bad: false, val: 0 }
        } else {
            assert(unsigned_part(next) =~= d.push(c));
            assert(d.push(c).drop_last() =~= d);
            assert(all_digits(d.push(c)) == (all_digits(d) && is_digit(c))) by {
                if all_digits(d) && is_digit(c) {
                    assert forall|i: int| 0 <= i < d.push(c).len() implies is_digit(
                        #[trigger] d.push(c)[i],
                    ) by {
                        if i < d.len() {
                            assert(d.push(c)[i] == d[i]);
                        }
                    }
                } else if all_digits(d.push(c)) {
                    assert(d.push(c)[d.len() as int] == c);
                    assert forall|i: int| 0 <= i < d.len() implies is_digit(#[trigger] d[i]) by {
                        assert(d.push(c)[i] == d[i]);
                    }
                }
            }
            if !self.bad && '0' <= c && c <= '9' {
                let v: u16 = self.val * 10 + ((c as u8) - ('0' as u8)) as u16;
                if v > 255 {
                    PartState { fresh: false, digits: true, bad: true, val: 0 }
                } else {
                    PartState { fresh: false, digits: true, bad: false, val: v }
                }
            } else {
                PartState { fresh: false, digits: true, bad: true, val: 0 }
            }
        }
    }

    fn finish(&self, Ghost(part): Ghost<Seq<char>>) -> (byte: Option<u8>)
        requires
            self.describes(part),
        ensures
            byte == parse_byte(part),
    {
        if !self.bad && self.digits {
            Some(self.val as u8)
        } else {
            None
        }
    }
}

impl AmsNetId {
    /// Whether this is the identifier that stands for "not set".
    pub fn is_empty(&self) -> (empty: bool)
        ensures
            empty == (self.0@ == seq![0u8, 0u8, 0u8, 0u8, 0u8, 0u8]),
    {
        let empty = self.0[0] == 0 && self.0[1] == 0 && self.0[2] == 0 && self.0[3] == 0
            && self.0[4] == 0 && self.0[5] == 0;
        proof {
            if empty {
                assert(self.0@ =~= seq![0u8, 0u8, 0u8, 0u8, 0u8, 0u8]);
            }
        }
        empty
    }

    /// The identifier whose bytes are those of `slice`.
    pub fn from_slice(slice: &[u8]) -> (id: AmsNetId)
        requires
            slice@.len() == 6,
        ensures
            id.0@ == slice@,
    {
        let arr: [u8; 6] = [slice[0], slice[1], slice[2], slice[3], slice[4], slice[5]];
        assert(arr@ =~= slice@);
        AmsNetId(arr)
    }

    /// Reads an identifier from its dotted form. Up to six parts may be
    /// given; the bytes that no part stands for are 1.
    pub fn from_str(s: &str) -> (parsed: Result<AmsNetId, FormatError>)
        ensures
            match parse_netid(s@) {
                Ok(bytes) => parsed matches Ok(id) && id.0@ == bytes,
                Err(e) => parsed == Err::<AmsNetId, FormatError>(e),
            },
    {
        let mut arr: [u8; 6] = [1, 1, 1, 1, 1, 1];
        let mut err: Option<FormatError> = None;
        let mut idx: usize = 0;
        let mut part = PartState::start();
        let ghost mut cur: Seq<char> = Seq::empty();
        assert(s@.take(0) =~= Seq::<char>::empty());
        assert(split_dot(s@.take(0)).drop_last() =~= Seq::<Seq<char>>::empty());
        assert(arr@ =~= seq![1u8, 1u8, 1u8, 1u8, 1u8, 1u8]);
        for c in it: s.chars()
            invariant
                it.seq() == s@,
                cur == split_dot(s@.take(it.index() as int)).last(),
                part.describes(cur),
                match fill(split_dot(s@.take(it.index() as int)).drop_last()) {
                    Ok(bytes) => err is None && arr@ == bytes && idx == split_dot(
                        s@.take(it.index() as int),
                    ).len() - 1 && idx <= 6,
                    Err(e) => err == Some(e),
                },
        {
            let ghost seen = s@.take(it.index() as int);
            let ghost parts = split_dot(seen);
            let ghost now = s@.take(it.index() + 1);
            proof {
                lemma_split_len(seen);
                lemma_split_len(now);
            }
            assert(now.drop_last() =~= seen);
            assert(now.last() == c);
            if c == '.' {
                assert(split_dot(now).drop_last() =~= parts);
                assert(parts.drop_last().push(cur) =~= parts);
                let byte = part.finish(Ghost(cur));
                if err.is_none() {
                    if idx >= 6 {
                        err = Some(FormatError::TooManyParts);
                    } else {
                        match byte {
                            None => {
                                err = Some(FormatError::InvalidByte);
                            },
                            Some(b) => {
                                arr[idx] = b;
                                idx = idx + 1;
                            },
                        }
                    }
                }
                part = PartState::start();
                proof {
                    cur = Seq::empty();
                }
            } else {
                assert(split_dot(now).drop_last() =~= parts.drop_last());
                part = part.read(c, Ghost(cur));
                proof {
                    cur = cur.push(c);
                }
            }
        }
        assert(s@.take(s@.len() as int) =~= s@);
        let ghost parts = split_dot(s@);
        proof {
            lemma_split_len(s@);
        }
        assert(parts.drop_last().push(cur) =~= parts);
        let byte = part.finish(Ghost(cur));
        match err {
            Some(e) => Err(e),
            None => {
                if idx >= 6 {
                    Err(FormatError::TooManyParts)
                } else {
                    match byte {
                        None => Err(FormatError::InvalidByte),
                        Some(b) => {
                            arr[idx] = b;
                            Ok(AmsNetId(arr))
                        },
                    }
                }
            },
        }
    }

    /// The identifier in its dotted form: all six bytes in decimal.
    pub fn to_string(&self) -> (text: String)
        ensures
            text@ == dotted(self.0@),
    {
        proof {
            reveal_strlit(".");
        }
        assert("."@ =~= seq!['.']);
        join_decimal(self.0.as_slice(), ".")
    }
}

/// Whether `s` holds no dot.
pub open spec fn dotless(s: Seq<char>) -> bool {
    forall|i: int| 0 <= i < s.len() ==> #[trigger] s[i] != '.'
}

/// `values` filled up to six bytes with ones.
pub open spec fn padded(values: Seq<u8>) -> Seq<u8> {
    Seq::new(
        6,
        |i: int|
            if i < values.len() {
                values[i]
            } else {
                1u8
            },
    )
}

/// A number in decimal is made of digits, at least one, which spell it.
pub proof fn lemma_decimal(n: nat)
    ensures
        decimal(n).len() > 0,
        all_digits(decimal(n)),
        digits_value(decimal(n)) == n,
    decreases n,
{
    let c = digit_char(n % 10);
    assert(is_digit(c) && digit_value(c) == n % 10);
    if n < 10 {
        assert(decimal(n) =~= seq![c]);
        assert(decimal(n).drop_last() =~= Seq::<char>::empty());
        assert(digits_value(decimal(n).drop_last()) == 0);
    } else {
        lemma_decimal(n / 10);
        let front = decimal(n / 10);
        assert(decimal(n) == front.push(c));
        assert(front.push(c).drop_last() =~= front);
        assert forall|i: int| 0 <= i < decimal(n).len() implies is_digit(
            #[trigger] decimal(n)[i],
        ) by {
            if i < front.len() {
                assert(decimal(n)[i] == front[i]);
            }
        }
    }
}

/// A byte written in decimal reads back as that byte, and holds no dot.
pub proof fn lemma_decimal_reads_back(b: u8)
    ensures
        parse_byte(decimal(b as nat)) == Some(b),
        dotless(decimal(b as nat)),
{
    let d = decimal(b as nat);
    lemma_decimal(b as nat);
    assert(is_digit(d[0]));
    assert(unsigned_part(d) == d);
    assert forall|i: int| 0 <= i < d.len() implies #[trigger] d[i] != '.' by {
        assert(is_digit(d[i]));
    }
}

/// A string that ends in a piece without a dot has the parts of what stands
/// before the piece, the last of them longer by the piece.
pub proof fn lemma_split_append(s: Seq<char>, t: Seq<char>)
    requires
        dotless(t),
    ensures
        split_dot(s + t) == split_dot(s).update(
            split_dot(s).len() - 1,
            split_dot(s).last() + t,
        ),
    decreases t.len(),
{
    lemma_split_len(s);
    let parts = split_dot(s);
    if t.len() == 0 {
        assert(s + t =~= s);
        assert(parts.last() + t =~= parts.last());
        assert(parts.update(parts.len() - 1, parts.last()) =~= parts);
    } else {
        let front = t.drop_last();
        assert forall|i: int| 0 <= i < front.len() implies #[trigger] front[i] != '.' by {
            assert(front[i] == t[i]);
        }
        lemma_split_append(s, front);
        assert((s + t).drop_last() =~= s + front);
        assert((s + t).last() == t.last());
        assert(t.last() == t[t.len() - 1]);
        let mid = split_dot(s + front);
        assert((parts.last() + front).push(t.last()) =~= parts.last() + t);
        assert(mid.update(mid.len() - 1, mid.last().push(t.last())) =~= parts.update(
            parts.len() - 1,
            parts.last() + t,
        ));
    }
}

/// Pieces without dots, joined by dots, are the parts of what they make.
pub proof fn lemma_split_joined(parts: Seq<Seq<char>>)
    requires
        parts.len() >= 1,
        forall|i: int| 0 <= i < parts.len() ==> dotless(#[trigger] parts[i]),
    ensures
        split_dot(joined(parts, seq!['.'])) == parts,
    decreases parts.len(),
{
    let empty = Seq::<char>::empty();
    if parts.len() == 1 {
        assert(joined(parts, seq!['.']) == parts[0]);
        assert(dotless(parts[0]));
        lemma_split_append(empty, parts[0]);
        assert(empty + parts[0] =~= parts[0]);
        assert(split_dot(empty) =~= seq![empty]);
        assert(seq![empty].update(0, empty + parts[0]) =~= parts);
    } else {
        let front = parts.drop_last();
        assert forall|i: int| 0 <= i < front.len() implies dotless(#[trigger] front[i]) by {
            assert(front[i] == parts[i]);
        }
        lemma_split_joined(front);
        let head = joined(front, seq!['.']);
        let dotted_head = head.push('.');
        assert(head + seq!['.'] =~= dotted_head);
        assert(dotted_head.drop_last() =~= head);
        assert(split_dot(dotted_head) == front.push(empty));
        assert(dotless(parts.last()));
        lemma_split_append(dotted_head, parts.last());
        assert(empty + parts.last() =~= parts.last());
        assert(front.push(empty).update(front.len() as int, parts.last()) =~= parts);
    }
}

/// What `fill` is, part by part. It gives bytes where there are at most six
/// parts and each is a byte: those bytes, then ones. It gives `InvalidByte`
/// where one of the first six parts is no byte, and `TooManyParts` where the
/// first six are bytes and a seventh follows.
pub proof fn lemma_fill(parts: Seq<Seq<char>>)
    ensures
        match fill(parts) {
            Ok(bytes) => {
                &&& parts.len() <= 6
                &&& bytes.len() == 6
                &&& forall|i: int|
                    0 <= i < parts.len() ==> parse_byte(#[trigger] parts[i]) == Some(bytes[i])
                &&& forall|i: int| parts.len() <= i < 6 ==> bytes[i] == 1
            },
            Err(FormatError::InvalidByte) => exists|i: int|
                0 <= i < parts.len() && i < 6 && parse_byte(#[trigger] parts[i]) is None,
            Err(FormatError::TooManyParts) => {
                &&& parts.len() > 6
                &&& forall|i: int| 0 <= i < 6 ==> parse_byte(#[trigger] parts[i]) is Some
            },
        },
    decreases parts.len(),
{
    if parts.len() > 0 {
        let front = parts.drop_last();
        lemma_fill(front);
        assert forall|i: int| 0 <= i < front.len() implies front[i] == parts[i] by {}
        match fill(front) {
            Ok(bytes) => {
                if parts.len() - 1 >= 6 {
                    assert forall|i: int| 0 <= i < 6 implies parse_byte(
                        #[trigger] parts[i],
                    ) is Some by {
                        assert(parse_byte(front[i]) == Some(bytes[i]));
                    }
                } else {
                    match parse_byte(parts.last()) {
                        None => {
                            assert(parse_byte(parts[parts.len() - 1]) is None);
                        },
                        Some(b) => {
                            let out = bytes.update(parts.len() - 1, b);
                            assert forall|i: int| 0 <= i < parts.len() implies parse_byte(
                                #[trigger] parts[i],
                            ) == Some(out[i]) by {
                                if i < front.len() {
                                    assert(parse_byte(front[i]) == Some(bytes[i]));
                                }
                            }
                        },
                    }
                }
            },
            Err(FormatError::InvalidByte) => {
                let i = choose|i: int|
                    0 <= i < front.len() && i < 6 && parse_byte(#[trigger] front[i]) is None;
                assert(parse_byte(parts[i]) is None);
            },
            Err(FormatError::TooManyParts) => {
                assert forall|i: int| 0 <= i < 6 implies parse_byte(#[trigger] parts[i]) is Some by {
                    assert(parse_byte(front[i]) is Some);
                }
            },
        }
    }
}

/// A string is an identifier if and only if it has at most six parts and
/// each is a byte. Then the identifier holds those bytes, and ones after
/// them.
pub proof fn lemma_parse_accepts(s: Seq<char>)
    ensures
        parse_netid(s) is Ok <==> split_dot(s).len() <= 6 && forall|i: int|
            0 <= i < split_dot(s).len() ==> parse_byte(#[trigger] split_dot(s)[i]) is Some,
        parse_netid(s) matches Ok(bytes) ==> bytes.len() == 6 && (forall|i: int|
            0 <= i < split_dot(s).len() ==> parse_byte(#[trigger] split_dot(s)[i]) == Some(
                bytes[i],
            )) && (forall|i: int| split_dot(s).len() <= i < 6 ==> bytes[i] == 1),
{
    lemma_fill(split_dot(s));
}

/// A string with a part among its first six that is no byte is refused as
/// `InvalidByte`: a part that is empty, that holds anything but digits after
/// an optional plus sign, or whose value is over 255. A string of more than
/// six parts is refused, as `TooManyParts` where the first six are bytes.
pub proof fn lemma_parse_rejects(s: Seq<char>)
    ensures
        parse_byte(Seq::empty()) is None,
        parse_netid(s) == Err::<Seq<u8>, FormatError>(FormatError::InvalidByte) <==> exists|i: int|
            0 <= i < split_dot(s).len() && i < 6 && parse_byte(#[trigger] split_dot(s)[i]) is None,
        parse_netid(s) == Err::<Seq<u8>, FormatError>(FormatError::TooManyParts) <==> split_dot(
            s,
        ).len() > 6 && forall|i: int|
            0 <= i < 6 ==> parse_byte(#[trigger] split_dot(s)[i]) is Some,
        split_dot(s).len() > 6 ==> parse_netid(s) is Err,
{
    lemma_fill(split_dot(s));
}

/// One to six bytes written in decimal with dots between them read back as
/// those bytes, and ones for the bytes that were not written.
pub proof fn lemma_format_then_parse(values: Seq<u8>)
    requires
        1 <= values.len() <= 6,
    ensures
        parse_netid(dotted(values)) == Ok::<Seq<u8>, FormatError>(padded(values)),
{
    let parts = decimals(values);
    assert forall|i: int| 0 <= i < parts.len() implies dotless(#[trigger] parts[i]) by {
        lemma_decimal_reads_back(values[i]);
    }
    lemma_split_joined(parts);
    lemma_fill(parts);
    assert forall|i: int| 0 <= i < parts.len() implies parse_byte(#[trigger] parts[i]) is Some by {
        lemma_decimal_reads_back(values[i]);
    }
    match fill(parts) {
        Ok(bytes) => {
            assert forall|i: int| 0 <= i < 6 implies bytes[i] == padded(values)[i] by {
                if i < values.len() {
                    lemma_decimal_reads_back(values[i]);
                    assert(parse_byte(parts[i]) == Some(bytes[i]));
                }
            }
            assert(bytes =~= padded(values));
        },
        Err(FormatError::InvalidByte) => {
            let i = choose|i: int|
                0 <= i < parts.len() && i < 6 && parse_byte(#[trigger] parts[i]) is None;
            assert(parse_byte(parts[i]) is Some);
        },
        Err(FormatError::TooManyParts) => {},
    }
}

/// Parsing, then writing out all six bytes: the text of the identifier that
/// `s` spells is the bytes of its parts in decimal, then ones, with dots
/// between them; and that text reads back as the same identifier.
pub proof fn lemma_parse_then_format(s: Seq<char>)
    requires
        parse_netid(s) is Ok,
    ensures
        ({
            let bytes = parse_netid(s)->Ok_0;
            let parts = split_dot(s);
            &&& parts.len() <= 6
            &&& dotted(bytes) == dotted(
                padded(Seq::new(parts.len(), |i: int| parse_byte(parts[i])->Some_0)),
            )
            &&& parse_netid(dotted(bytes)) == Ok::<Seq<u8>, FormatError>(bytes)
        }),
{
    let bytes = parse_netid(s)->Ok_0;
    let parts = split_dot(s);
    lemma_fill(parts);
    let values = Seq::new(parts.len(), |i: int| parse_byte(parts[i])->Some_0);
    assert forall|i: int| 0 <= i < 6 implies bytes[i] == padded(values)[i] by {
        if i < parts.len() {
            assert(parse_byte(parts[i]) == Some(bytes[i]));
        }
    }
    assert(bytes =~= padded(values));
    lemma_format_then_parse(bytes);
    assert(padded(bytes) =~= bytes);
}

} // verus!
