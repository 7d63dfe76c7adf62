//! Text in columns: padding, joining, and rows of cells.

use crate::objects::duplicate::views_of;
use vstd::prelude::*;
use vstd::string::{StrSliceExecFns, StringExecFns};

verus! {

/// `n` spaces.
pub open spec fn spaces(n: nat) -> Seq<char> {
    Seq::new(n, |i: int| ' ')
}

/// `text`, filled up with spaces on the right to `width` characters; text
/// that is longer stays as it is.
pub open spec fn padded(text: Seq<char>, width: nat) -> Seq<char> {
    if text.len() >= width {
        text
    } else {
        text + spaces((width - text.len()) as nat)
    }
}

/// `items` in a row, with `separator` between each two.
pub open spec fn joined(items: Seq<Seq<char>>, separator: Seq<char>) -> Seq<char>
    decreases items.len(),
{
    if items.len() == 0 {
        Seq::empty()
    } else if items.len() == 1 {
        items[0]
    } else {
        joined(items.drop_last(), separator) + separator + items.last()
    }
}

/// `cells`, each padded to the width at its position in `widths`; cells
/// beyond the widths are not padded.
pub open spec fn padded_cells(cells: Seq<Seq<char>>, widths: Seq<usize>) -> Seq<Seq<char>> {
    Seq::new(
        cells.len(),
        |i: int|
            if i < widths.len() {
                padded(cells[i], widths[i] as nat)
            } else {
                cells[i]
            },
    )
}

/// A row of a table: the padded cells with one space between each two.
pub open spec fn row_of(cells: Seq<Seq<char>>, widths: Seq<usize>) -> Seq<char> {
    joined(padded_cells(cells, widths), seq![' '])
}

/// `text`, filled up with spaces on the right to `width` characters.
pub fn pad(text: &str, width: usize) -> (out: String)
    ensures
        out@ == padded(text@, width as nat),
{
    let mut out = String::from_str(text);
    let len = text.unicode_len();
    let mut i: usize = len;
    proof {
        assert(text@ + spaces(0) =~= text@);
    }
    while i < width
        invariant
            len == text@.len(),
            len <= i,
            len < width ==> i <= width,
            len >= width ==> i == len,
            out@ == text@ + spaces((i - len) as nat),
        decreases width - i,
    {
        proof {
            reveal_strlit(" ");
        }
        out.append(" ");
        proof {
            assert(out@ =~= text@ + spaces((i + 1 - len) as nat));
        }
        i += 1;
    }
    proof {
        if len >= width {
            assert(text@ + spaces(0) =~= text@);
        }
    }
    out
}

/// `items` in a row, with `separator` between each two.
pub fn join(items: &Vec<String>, separator: &str) -> (out: String)
    ensures
        out@ == joined(views_of(items@), separator@),
{
    let mut out = String::new();
    let mut i: usize = 0;
    while i < items.len()
        invariant
            0 <= i <= items@.len(),
            out@ == joined(views_of(items@).take(i as int), separator@),
        decreases items@.len() - i,
    {
        proof {
            assert(views_of(items@).take(i + 1).drop_last() =~= views_of(items@).take(i as int));
            assert(views_of(items@).take(i + 1).last() == items@[i as int]@);
        }
        if i > 0 {
            out.append(separator);
        }
        out.append(items[i].as_str());
        proof {
            if i == 0 {
                assert(views_of(items@).take(1)[0] == items@[0]@);
                assert(out@ =~= items@[0]@);
            }
        }
        i += 1;
    }
    proof {
        assert(views_of(items@).take(i as int) =~= views_of(items@));
    }
    out
}

/// A row of a table: the cells, each padded to the width at its position,
/// with one space between each two.
pub fn row(cells: &Vec<String>, widths: &Vec<usize>) -> (out: String)
    ensures
        out@ == row_of(views_of(cells@), widths@),
{
    let mut padded_all: Vec<String> = Vec::new();
    let mut i: usize = 0;
    while i < cells.len()
        invariant
            0 <= i <= cells@.len(),
            padded_all@.len() == i,
            forall|j: int|
                0 <= j < i ==> (#[trigger] padded_all@[j])@ == padded_cells(
                    views_of(cells@),
                    widths@,
                )[j],
        decreases cells@.len() - i,
    {
        let cell = if i < widths.len() {
            pad(cells[i].as_str(), widths[i])
        } else {
            cells[i].clone()
        };
        padded_all.push(cell);
        i += 1;
    }
    proof {
        reveal_strlit(" ");
        assert(views_of(padded_all@) =~= padded_cells(views_of(cells@), widths@));
        assert(" "@ =~= seq![' ']);
    }
    join(&padded_all, " ")
}

/// The character for the digit `d`.
pub open spec fn digit_of(d: nat) -> char {
    if d == 0 {
        '0'
    } else if d == 1 {
        '1'
    } else if d == 2 {
        '2'
    } else if d == 3 {
        '3'
    } else if d == 4 {
        '4'
    } else if d == 5 {
        '5'
    } else if d == 6 {
        '6'
    } else if d == 7 {
        '7'
    } else if d == 8 {
        '8'
    } else {
        '9'
    }
}

/// `n` written in decimal, without leading zeros.
pub open spec fn decimal_of(n: nat) -> Seq<char>
    decreases n,
{
    if n < 10 {
        seq![digit_of(n)]
    } else {
        decimal_of(n / 10).push(digit_of(n % 10))
    }
}

/// A number is written with at least one digit, and with two from ten on.
pub proof fn lemma_decimal_nonempty(n: nat)
    ensures
        decimal_of(n).len() >= 1,
        n >= 10 ==> decimal_of(n).len() >= 2,
    decreases n,
{
    if n >= 10 {
        lemma_decimal_nonempty(n / 10);
    }
}

/// Different numbers are written differently.
pub proof fn lemma_decimal_injective(a: nat, b: nat)
    requires
        decimal_of(a) == decimal_of(b),
    ensures
        a == b,
    decreases a,
{
    lemma_decimal_nonempty(a);
    lemma_decimal_nonempty(b);
    if a < 10 && b < 10 {
        assert(decimal_of(a)[0] == digit_of(a));
        assert(decimal_of(b)[0] == digit_of(b));
    } else if a >= 10 && b >= 10 {
        let x = decimal_of(a / 10);
        let y = decimal_of(b / 10);
        assert(decimal_of(a).last() == digit_of(a % 10));
        assert(decimal_of(b).last() == digit_of(b % 10));
        assert(decimal_of(a).drop_last() =~= x);
        assert(decimal_of(b).drop_last() =~= y);
        lemma_decimal_injective(a / 10, b / 10);
    }
}

fn digit(d: u8) -> (text: &'static str)
    requires
        d < 10,
    ensures
        text@ == seq![digit_of(d as nat)],
{
    proof {
        reveal_strlit("0");
        reveal_strlit("1");
        reveal_strlit("2");
        reveal_strlit("3");
        reveal_strlit("4");
        reveal_strlit("5");
        reveal_strlit("6");
        reveal_strlit("7");
        reveal_strlit("8");
        reveal_strlit("9");
    }
    let text = if d == 0 {
        "0"
    } else if d == 1 {
        "1"
    } else if d == 2 {
        "2"
    } else if d == 3 {
        "3"
    } else if d == 4 {
        "4"
    } else if d == 5 {
        "5"
    } else if d == 6 {
        "6"
    } else if d == 7 {
        "7"
    } else if d == 8 {
        "8"
    } else {
        "9"
    };
    assert(text@ =~= seq![digit_of(d as nat)]);
    text
}

/// `n` written in decimal.
pub fn decimal(n: u128) -> (text: String)
    ensures
        text@ == decimal_of(n as nat),
    decreases n,
{
    if n < 10 {
        String::from_str(digit(n as u8))
    } else {
        let text = decimal(n / 10).concat(digit((n % 10) as u8));
        assert(text@ =~= decimal_of((n / 10) as nat).push(digit_of((n % 10) as nat)));
        text
    }
}

} // verus!
