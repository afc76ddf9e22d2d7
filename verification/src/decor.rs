//! Ornament and present decorations: the two display cycles and the
//! styling elements read from package checksums — a colour from the first
//! six hex digits, a position from the next four.

use vstd::prelude::*;

use crate::text::{opt_str_view, push_char, str_eq};

verus! {

/// The present colour cycle: red, blue, purple, red again.
pub open spec fn spec_cycle_colors(c: Seq<char>) -> Option<Seq<char>> {
    if c == "red"@ {
        Some("blue"@)
    } else if c == "blue"@ {
        Some("purple"@)
    } else if c == "purple"@ {
        Some("red"@)
    } else {
        None
    }
}

/// The ornament state cycle: off and on alternate.
pub open spec fn spec_cycle_states(c: Seq<char>) -> Option<Seq<char>> {
    if c == "off"@ {
        Some("on"@)
    } else if c == "on"@ {
        Some("off"@)
    } else {
        None
    }
}

/// Next colour of the present cycle; `None` for anything else.
pub fn cycle_colors(color: &str) -> (r: Option<&'static str>)
    ensures
        opt_str_view(r) == spec_cycle_colors(color@),
{
    if str_eq(color, "red") {
        Some("blue")
    } else if str_eq(color, "blue") {
        Some("purple")
    } else if str_eq(color, "purple") {
        Some("red")
    } else {
        None
    }
}

/// Next state of the ornament cycle; `None` for anything else.
pub fn cycle_states(state: &str) -> (r: Option<&'static str>)
    ensures
        opt_str_view(r) == spec_cycle_states(state@),
{
    if str_eq(state, "off") {
        Some("on")
    } else if str_eq(state, "on") {
        Some("off")
    } else {
        None
    }
}

/// One styling element: a CSS colour and a position in the grotto.
#[derive(Debug)]
pub struct Element {
    pub color: String,
    pub top: u8,
    pub left: u8,
}

pub ghost struct ElementModel {
    pub color: Seq<char>,
    pub top: u8,
    pub left: u8,
}

impl View for Element {
    type V = ElementModel;

    open spec fn view(&self) -> ElementModel {
        ElementModel { color: self.color@, top: self.top, left: self.left }
    }
}

impl DeepView for Element {
    type V = ElementModel;

    open spec fn deep_view(&self) -> ElementModel {
        self.view()
    }
}

/// Why a checksum yields no element: fewer than ten characters, or one of
/// the first ten is not a hexadecimal digit.
#[derive(Clone, Copy, Debug, PartialEq, Eq, Structural)]
pub enum ChecksumError {
    TooShort,
    BadDigit,
}

pub open spec fn is_hex(c: char) -> bool {
    ('0' <= c && c <= '9') || ('a' <= c && c <= 'f') || ('A' <= c && c <= 'F')
}

pub open spec fn hex_val(c: char) -> int {
    if '0' <= c && c <= '9' {
        c as int - 48
    } else if 'a' <= c && c <= 'f' {
        c as int - 87
    } else {
        c as int - 55
    }
}

pub open spec fn hex_prefix_ok(s: Seq<char>) -> bool {
    forall|i: int| 0 <= i < 10 ==> is_hex(#[trigger] s[i])
}

/// What a checksum yields: `#` plus its first six digits as the colour, the
/// next two pairs of digits as top and left.
pub open spec fn spec_checksum_element(s: Seq<char>) -> Result<ElementModel, ChecksumError> {
    if s.len() < 10 {
        Err(ChecksumError::TooShort)
    } else if !hex_prefix_ok(s) {
        Err(ChecksumError::BadDigit)
    } else {
        Ok(
            ElementModel {
                color: seq!['#'] + s.take(6),
                top: (hex_val(s[6]) * 16 + hex_val(s[7])) as u8,
                left: (hex_val(s[8]) * 16 + hex_val(s[9])) as u8,
            },
        )
    }
}

fn hex_digit(c: char) -> (d: Option<u8>)
    ensures
        is_hex(c) ==> (d matches Some(v) && v == hex_val(c)),
        !is_hex(c) ==> d is None,
{
    if '0' <= c && c <= '9' {
        Some((c as u8) - 48)
    } else if 'a' <= c && c <= 'f' {
        Some((c as u8) - 87)
    } else if 'A' <= c && c <= 'F' {
        Some((c as u8) - 55)
    } else {
        None
    }
}

/// Reads one styling element out of a package checksum: the first six hex
/// digits name the colour, digits seven and eight the top offset, nine and
/// ten the left offset. Anything shorter than ten characters, or with a
/// non-hex character among the first ten, is refused.
pub fn checksum_to_element(checksum: &str) -> (r: Result<Element, ChecksumError>)
    ensures
        match r {
            Ok(e) => spec_checksum_element(checksum@) == Ok::<ElementModel, ChecksumError>(e@),
            Err(err) => spec_checksum_element(checksum@) == Err::<ElementModel, ChecksumError>(err),
        },
{
    let n = checksum.unicode_len();
    if n < 10 {
        return Err(ChecksumError::TooShort);
    }
    let mut i: usize = 0;
    while i < 10
        invariant
            0 <= i <= 10,
            n == checksum@.len(),
            n >= 10,
            forall|j: int| 0 <= j < i ==> is_hex(#[trigger] checksum@[j]),
        decreases 10 - i,
    {
        match hex_digit(checksum.get_char(i)) {
            Some(_d) => (),
            None => {
                return Err(ChecksumError::BadDigit);
            },
        }
        i = i + 1;
    }
    let t1 = match hex_digit(checksum.get_char(6)) {
        Some(d) => d,
        None => {
            return Err(ChecksumError::BadDigit);
        },
    };
    let t2 = match hex_digit(checksum.get_char(7)) {
        Some(d) => d,
        None => {
            return Err(ChecksumError::BadDigit);
        },
    };
    let l1 = match hex_digit(checksum.get_char(8)) {
        Some(d) => d,
        None => {
            return Err(ChecksumError::BadDigit);
        },
    };
    let l2 = match hex_digit(checksum.get_char(9)) {
        Some(d) => d,
        None => {
            return Err(ChecksumError::BadDigit);
        },
    };
    let mut color = String::new();
    push_char(&mut color, '#');
    let mut k: usize = 0;
    while k < 6
        invariant
            0 <= k <= 6,
            n == checksum@.len(),
            n >= 10,
            color@ =~= seq!['#'] + checksum@.take(k as int),
        decreases 6 - k,
    {
        push_char(&mut color, checksum.get_char(k));
        proof {
            assert(color@ =~= seq!['#'] + checksum@.take(k + 1));
        }
        k = k + 1;
    }
    let e = Element { color, top: t1 * 16 + t2, left: l1 * 16 + l2 };
    Ok(e)
}

/// Index of the first checksum that yields no element, or the length.
pub open spec fn first_bad(cs: Seq<Seq<char>>) -> int
    decreases cs.len(),
{
    if cs.len() == 0 {
        0
    } else if spec_checksum_element(cs[0]) is Err {
        0
    } else {
        1 + first_bad(cs.drop_first())
    }
}

pub proof fn lemma_first_bad_at(cs: Seq<Seq<char>>, i: int)
    requires
        0 <= i <= cs.len(),
        forall|j: int| 0 <= j < i ==> spec_checksum_element(#[trigger] cs[j]) is Ok,
        i < cs.len() ==> spec_checksum_element(cs[i]) is Err,
    ensures
        first_bad(cs) == i,
    decreases cs.len(),
{
    if cs.len() > 0 && spec_checksum_element(cs[0]) is Ok {
        assert(i > 0);
        assert(forall|j: int|
            0 <= j < cs.drop_first().len() ==> #[trigger] cs.drop_first()[j] == cs[j + 1]);
        lemma_first_bad_at(cs.drop_first(), i - 1);
    }
}

/// Turns a list of checksums into styling elements. Every checksum must
/// yield an element; the first failure is the result, as collecting the
/// results of a fallible map would have it.
pub fn checksums_to_elements(checksums: &Vec<String>) -> (r: Result<Vec<Element>, ChecksumError>)
    ensures
        first_bad(checksums.deep_view()) == checksums@.len() ==> (r matches Ok(v)
            && v.deep_view() =~= Seq::new(
            checksums@.len() as nat,
            |i: int| spec_checksum_element(checksums.deep_view()[i])->Ok_0,
        )),
        first_bad(checksums.deep_view()) < checksums@.len() ==> (r matches Err(e) && Err::<
            ElementModel,
            ChecksumError,
        >(e) == spec_checksum_element(checksums.deep_view()[first_bad(checksums.deep_view())])),
{
    let ghost cs = checksums.deep_view();
    let n = checksums.len();
    let mut out: Vec<Element> = Vec::new();
    let mut i: usize = 0;
    while i < n
        invariant
            0 <= i <= n,
            n == cs.len(),
            cs == checksums.deep_view(),
            out@.len() == i,
            forall|j: int| 0 <= j < i ==> spec_checksum_element(#[trigger] cs[j]) is Ok,
            forall|j: int|
                0 <= j < i ==> out.deep_view()[j] == spec_checksum_element(
                    #[trigger] cs[j],
                )->Ok_0,
        decreases n - i,
    {
        match checksum_to_element(checksums[i].as_str()) {
            Ok(e) => {
                proof {
                    assert(cs[i as int] == checksums@[i as int]@);
                }
                out.push(e);
            },
            Err(err) => {
                proof {
                    assert(cs[i as int] == checksums@[i as int]@);
                    lemma_first_bad_at(cs, i as int);
                }
                return Err(err);
            },
        }
        i = i + 1;
    }
    proof {
        lemma_first_bad_at(cs, n as int);
        assert(out.deep_view() =~= Seq::new(
            cs.len(),
            |j: int| spec_checksum_element(cs[j])->Ok_0,
        ));
    }
    Ok(out)
}

} // verus!
