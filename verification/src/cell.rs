//! A spreadsheet cell addressed by one-based column and row, carrying its
//! own pixel dimensions and its display name: bijective base-26 column
//! letters followed by the decimal row number (column 2, row 11 reads
//! "B11").

use vstd::prelude::*;
use vstd::arithmetic::div_mod::{lemma_fundamental_div_mod, lemma_mod_division_less_than_divisor};
use vstd::string::StringExecFns;
use vstd::utf8::{is_ascii_chars, is_ascii_chars_encode_utf8};

verus! {

/// The letter of one base-26 column-name digit (0 through 25).
pub open spec fn letter_of(d: int) -> char {
    if d == 0 {
        'A'
    } else if d == 1 {
        'B'
    } else if d == 2 {
        'C'
    } else if d == 3 {
        'D'
    } else if d == 4 {
        'E'
    } else if d == 5 {
        'F'
    } else if d == 6 {
        'G'
    } else if d == 7 {
        'H'
    } else if d == 8 {
        'I'
    } else if d == 9 {
        'J'
    } else if d == 10 {
        'K'
    } else if d == 11 {
        'L'
    } else if d == 12 {
        'M'
    } else if d == 13 {
        'N'
    } else if d == 14 {
        'O'
    } else if d == 15 {
        'P'
    } else if d == 16 {
        'Q'
    } else if d == 17 {
        'R'
    } else if d == 18 {
        'S'
    } else if d == 19 {
        'T'
    } else if d == 20 {
        'U'
    } else if d == 21 {
        'V'
    } else if d == 22 {
        'W'
    } else if d == 23 {
        'X'
    } else if d == 24 {
        'Y'
    } else {
        'Z'
    }
}

/// The character of one decimal digit (0 through 9).
pub open spec fn digit_of(d: int) -> char {
    if d == 0 {
        '0'
    } else if d == 1 {
        '1'
    } else if d == 2 {
        '2'
    } else if d == 3 {
        '3'
    } else if d == 4 {
        '4'
    } else if d == 5 {
        '5'
    } else if d == 6 {
        '6'
    } else if d == 7 {
        '7'
    } else if d == 8 {
        '8'
    } else {
        '9'
    }
}

/// The bijective base-26 column name: column 1 is "A", 26 is "Z", 27 is
/// "AA"; column 0 (no column) is the empty name.
pub open spec fn column_letters(n: int) -> Seq<char>
    decreases n,
{
    if n <= 0 {
        Seq::empty()
    } else {
        column_letters((n - 1) / 26).push(letter_of((n - 1) % 26))
    }
}

/// The decimal digit string of a non-negative number (zero reads "0").
pub open spec fn decimal_digits(n: int) -> Seq<char>
    decreases n,
{
    if n < 0 {
        Seq::empty()
    } else if n < 10 {
        seq![digit_of(n)]
    } else {
        decimal_digits(n / 10).push(digit_of(n % 10))
    }
}

/// The one-character string of one base-26 column-name digit.
fn letter_str(d: u8) -> (s: &'static str)
    requires
        d < 26,
    ensures
        s@ =~= seq![letter_of(d as int)],
{
    proof {
        reveal_strlit("A");
        reveal_strlit("B");
        reveal_strlit("C");
        reveal_strlit("D");
        reveal_strlit("E");
        reveal_strlit("F");
        reveal_strlit("G");
        reveal_strlit("H");
        reveal_strlit("I");
        reveal_strlit("J");
        reveal_strlit("K");
        reveal_strlit("L");
        reveal_strlit("M");
        reveal_strlit("N");
        reveal_strlit("O");
        reveal_strlit("P");
        reveal_strlit("Q");
        reveal_strlit("R");
        reveal_strlit("S");
        reveal_strlit("T");
        reveal_strlit("U");
        reveal_strlit("V");
        reveal_strlit("W");
        reveal_strlit("X");
        reveal_strlit("Y");
        reveal_strlit("Z");
    }
    match d {
        0 => "A",
        1 => "B",
        2 => "C",
        3 => "D",
        4 => "E",
        5 => "F",
        6 => "G",
        7 => "H",
        8 => "I",
        9 => "J",
        10 => "K",
        11 => "L",
        12 => "M",
        13 => "N",
        14 => "O",
        15 => "P",
        16 => "Q",
        17 => "R",
        18 => "S",
        19 => "T",
        20 => "U",
        21 => "V",
        22 => "W",
        23 => "X",
        24 => "Y",
        _ => "Z",
    }
}

/// The one-character string of one decimal digit.
fn digit_str(d: u8) -> (s: &'static str)
    requires
        d < 10,
    ensures
        s@ =~= seq![digit_of(d as int)],
{
    proof {
        reveal_strlit("0");
        reveal_strlit("1");
        reveal_strlit("2");
        reveal_strlit("3");
        reveal_strlit("4");
        reveal_strlit("5");
        reveal_strlit("6");
        reveal_strlit("7");
        reveal_strlit("8");
        reveal_strlit("9");
    }
    match d {
        0 => "0",
        1 => "1",
        2 => "2",
        3 => "3",
        4 => "4",
        5 => "5",
        6 => "6",
        7 => "7",
        8 => "8",
        _ => "9",
    }
}

/// One cell of the sheet, with its own pixel dimensions.
#[derive(Clone, Copy, Debug)]
pub struct Cell {
    row_idx: u16,
    col_idx: u8,
    width: usize,
    height: usize,
}

impl Cell {
    pub closed spec fn spec_col(self) -> int {
        self.col_idx as int
    }

    pub closed spec fn spec_row(self) -> int {
        self.row_idx as int
    }

    pub closed spec fn spec_width(self) -> int {
        self.width as int
    }

    pub closed spec fn spec_height(self) -> int {
        self.height as int
    }

    /// The cell's display name: column letters, then the row number.
    pub open spec fn spec_name(self) -> Seq<char> {
        column_letters(self.spec_col()) + decimal_digits(self.spec_row())
    }

    /// A new cell at `(col_idx, row_idx)` with default dimensions.
    pub fn new(col_idx: u8, row_idx: u16) -> (c: Cell)
        ensures
            c.spec_col() == col_idx,
            c.spec_row() == row_idx,
            c.spec_width() == 20,
            c.spec_height() == 20,
    {
        Cell { row_idx, col_idx, width: 20, height: 20 }
    }

    /// The column letters of this cell's name.
    fn get_column_name(&self) -> (s: String)
        ensures
            s@ == column_letters(self.spec_col()),
    {
        let mut name_s = String::new();
        let mut dividend: u8 = self.col_idx;
        proof {
            assert(column_letters(self.spec_col()) =~= column_letters(dividend as int)
                + name_s@);
        }
        while dividend > 0
            invariant
                column_letters(self.spec_col()) == column_letters(dividend as int) + name_s@,
            decreases dividend,
        {
            let ghost before = name_s@;
            let ghost d0 = dividend as int;
            let modulo = (dividend - 1) % 26;
            let prefix = String::from_str(letter_str(modulo));
            name_s = prefix.concat(name_s.as_str());
            dividend = (dividend - 1) / 26;
            proof {
                assert(column_letters(d0) == column_letters((d0 - 1) / 26).push(
                    letter_of((d0 - 1) % 26),
                ));
                assert(column_letters(self.spec_col()) =~= column_letters(dividend as int)
                    + name_s@);
            }
        }
        proof {
            assert(column_letters(0) =~= Seq::<char>::empty());
            assert(column_letters(self.spec_col()) =~= name_s@);
        }
        name_s
    }

    /// The decimal digits of this cell's row number.
    fn get_row_digits(&self) -> (s: String)
        ensures
            s@ == decimal_digits(self.spec_row()),
    {
        let mut n: u16 = self.row_idx;
        let mut num_s = String::from_str(digit_str((n % 10) as u8));
        proof {
            assert(num_s@ =~= seq![digit_of(n as int % 10)]);
        }
        let ghost row = self.spec_row();
        n = n / 10;
        proof {
            if n > 0 {
                assert(decimal_digits(row) =~= decimal_digits(n as int) + num_s@);
            } else {
                assert(decimal_digits(row) =~= num_s@);
            }
        }
        while n > 0
            invariant
                row == self.spec_row(),
                n > 0 ==> decimal_digits(row) == decimal_digits(n as int) + num_s@,
                n == 0 ==> decimal_digits(row) == num_s@,
            decreases n,
        {
            let ghost d0 = n as int;
            let prefix = String::from_str(digit_str((n % 10) as u8));
            num_s = prefix.concat(num_s.as_str());
            n = n / 10;
            proof {
                if d0 >= 10 {
                    assert(decimal_digits(d0) == decimal_digits(d0 / 10).push(
                        digit_of(d0 % 10),
                    ));
                    assert(decimal_digits(row) =~= decimal_digits(n as int) + num_s@);
                } else {
                    assert(decimal_digits(d0) =~= seq![digit_of(d0 % 10)]);
                    assert(decimal_digits(row) =~= num_s@);
                }
            }
        }
        num_s
    }

    /// The display name: column letters, then the row number ("B11").
    pub fn name(&self) -> (s: String)
        ensures
            s@ == self.spec_name(),
    {
        let letters = self.get_column_name();
        let digits = self.get_row_digits();
        letters.concat(digits.as_str())
    }

    pub fn get_col_idx(&self) -> (v: u8)
        ensures
            v == self.spec_col(),
    {
        self.col_idx
    }

    pub fn get_row_idx(&self) -> (v: u16)
        ensures
            v == self.spec_row(),
    {
        self.row_idx
    }

    pub fn get_width(&self) -> (v: usize)
        ensures
            v == self.spec_width(),
    {
        self.width
    }

    pub fn get_height(&self) -> (v: usize)
        ensures
            v == self.spec_height(),
    {
        self.height
    }

    pub fn set_width(&mut self, width: usize)
        ensures
            final(self).spec_width() == width,
            final(self).spec_height() == old(self).spec_height(),
            final(self).spec_col() == old(self).spec_col(),
            final(self).spec_row() == old(self).spec_row(),
    {
        self.width = width;
    }

    pub fn set_height(&mut self, height: usize)
        ensures
            final(self).spec_height() == height,
            final(self).spec_width() == old(self).spec_width(),
            final(self).spec_col() == old(self).spec_col(),
            final(self).spec_row() == old(self).spec_row(),
    {
        self.height = height;
    }

    /// Whether this cell's display name orders strictly before `other`'s:
    /// byte order of the (ASCII) names, the iteration order of a store
    /// keyed by the name.
    pub fn name_before(&self, other: &Cell) -> (r: bool)
        ensures
            r == name_lex_less(self.spec_name(), other.spec_name()),
    {
        let sa = self.name();
        let sb = other.name();
        proof {
            lemma_name_is_ascii(*self);
            lemma_name_is_ascii(*other);
            is_ascii_chars_encode_utf8(sa@);
            is_ascii_chars_encode_utf8(sb@);
        }
        let ba = sa.as_str().as_bytes();
        let bb = sb.as_str().as_bytes();
        let la = ba.len();
        let lb = bb.len();
        let mut j: usize = 0;
        while j < la && j < lb
            invariant
                la == ba@.len(),
                lb == bb@.len(),
                sa@ == self.spec_name(),
                sb@ == other.spec_name(),
                ba@.len() == sa@.len(),
                bb@.len() == sb@.len(),
                is_ascii_chars(sa@),
                is_ascii_chars(sb@),
                forall|i: int| 0 <= i < sa@.len() ==> ba@[i] == #[trigger] sa@[i] as u8,
                forall|i: int| 0 <= i < sb@.len() ==> bb@[i] == #[trigger] sb@[i] as u8,
                0 <= j <= la,
                j <= lb,
                forall|m: int| 0 <= m < j ==> sa@[m] == sb@[m],
            decreases la - j,
        {
            let ca = ba[j];
            let cb = bb[j];
            if ca != cb {
                proof {
                    assert('\0' <= sa@[j as int] <= '\u{7f}');
                    assert('\0' <= sb@[j as int] <= '\u{7f}');
                    assert(sa@[j as int] != sb@[j as int]);
                    lemma_name_lex_skip(sa@, sb@, j as int);
                    assert(sa@.skip(j as int)[0] == sa@[j as int]);
                    assert(sb@.skip(j as int)[0] == sb@[j as int]);
                    assert((ca < cb) == (sa@[j as int] < sb@[j as int]));
                }
                return ca < cb;
            }
            proof {
                assert('\0' <= sa@[j as int] <= '\u{7f}');
                assert('\0' <= sb@[j as int] <= '\u{7f}');
                assert(sa@[j as int] == sb@[j as int]);
            }
            j += 1;
        }
        proof {
            lemma_name_lex_skip(sa@, sb@, j as int);
            assert(sa@.skip(j as int).len() == sa@.len() - j);
            assert(sb@.skip(j as int).len() == sb@.len() - j);
        }
        la < lb
    }
}


/// Lexicographic order on display names: by the first differing
/// character, a strict prefix ordering before its extensions. This is the
/// iteration order of a store keyed by the name string (names are ASCII,
/// so character order and byte order agree).
pub open spec fn name_lex_less(a: Seq<char>, b: Seq<char>) -> bool
    decreases a.len(),
{
    if b.len() == 0 {
        false
    } else if a.len() == 0 {
        true
    } else if a[0] != b[0] {
        a[0] < b[0]
    } else {
        name_lex_less(a.drop_first(), b.drop_first())
    }
}

/// The name order is asymmetric: a name strictly below another is
/// distinct from it and not also above it.
pub proof fn lemma_name_lex_asymmetric(a: Seq<char>, b: Seq<char>)
    requires
        name_lex_less(a, b),
    ensures
        !name_lex_less(b, a),
        a != b,
    decreases a.len(),
{
    if a.len() != 0 && b.len() != 0 && a[0] == b[0] {
        lemma_name_lex_asymmetric(a.drop_first(), b.drop_first());
        if a == b {
            assert(a.drop_first() == b.drop_first());
        }
    }
}

/// The name order is total: two names neither of which is below the
/// other are equal.
pub proof fn lemma_name_lex_connected(a: Seq<char>, b: Seq<char>)
    requires
        !name_lex_less(a, b),
        !name_lex_less(b, a),
    ensures
        a == b,
    decreases a.len(),
{
    if b.len() == 0 {
        assert(a.len() == 0);
        assert(a =~= b);
    } else if a.len() == 0 {
        assert(false);
    } else {
        assert(a[0] == b[0]);
        lemma_name_lex_connected(a.drop_first(), b.drop_first());
        assert(a =~= b) by {
            assert(a.len() == b.len());
            assert forall|i: int| 0 <= i < a.len() implies a[i] == b[i] by {
                if i > 0 {
                    assert(a.drop_first()[i - 1] == b.drop_first()[i - 1]);
                }
            }
        }
    }
}

/// The name order is transitive.
pub proof fn lemma_name_lex_transitive(a: Seq<char>, b: Seq<char>, c: Seq<char>)
    requires
        name_lex_less(a, b),
        name_lex_less(b, c),
    ensures
        name_lex_less(a, c),
    decreases a.len(),
{
    if a.len() != 0 && b.len() != 0 && c.len() != 0 && a[0] == b[0] && b[0] == c[0] {
        lemma_name_lex_transitive(a.drop_first(), b.drop_first(), c.drop_first());
    }
}

/// Skipping a shared prefix does not change the name order.
pub proof fn lemma_name_lex_skip(a: Seq<char>, b: Seq<char>, j: int)
    requires
        0 <= j <= a.len(),
        j <= b.len(),
        forall|m: int| 0 <= m < j ==> a[m] == b[m],
    ensures
        name_lex_less(a, b) == name_lex_less(a.skip(j), b.skip(j)),
    decreases j,
{
    if j > 0 {
        assert(a[0] == b[0]);
        assert forall|m: int| 0 <= m < j - 1 implies a.drop_first()[m] == b.drop_first()[m] by {
            assert(a[m + 1] == b[m + 1]);
        }
        lemma_name_lex_skip(a.drop_first(), b.drop_first(), j - 1);
        assert(a.drop_first().skip(j - 1) =~= a.skip(j));
        assert(b.drop_first().skip(j - 1) =~= b.skip(j));
    } else {
        assert(a.skip(0) =~= a);
        assert(b.skip(0) =~= b);
    }
}

/// Every character of a column name is a capital letter.
pub proof fn lemma_column_letters_chars(n: int)
    ensures
        forall|i: int|
            0 <= i < column_letters(n).len() ==> 'A' <= #[trigger] column_letters(n)[i] <= 'Z',
    decreases n,
{
    if n > 0 {
        lemma_column_letters_chars((n - 1) / 26);
        assert('A' <= letter_of((n - 1) % 26) <= 'Z');
        let prefix = column_letters((n - 1) / 26);
        assert forall|i: int|
            0 <= i < column_letters(n).len() implies 'A' <= #[trigger] column_letters(n)[i]
            <= 'Z' by {
            if i < prefix.len() {
                assert(column_letters(n)[i] == prefix[i]);
            }
        }
    }
}

/// Every character of a row number is a decimal digit, and there is at
/// least one.
pub proof fn lemma_decimal_digits_chars(n: int)
    requires
        0 <= n,
    ensures
        decimal_digits(n).len() >= 1,
        forall|i: int|
            0 <= i < decimal_digits(n).len() ==> '0' <= #[trigger] decimal_digits(n)[i] <= '9',
    decreases n,
{
    if n >= 10 {
        lemma_decimal_digits_chars(n / 10);
        assert('0' <= digit_of(n % 10) <= '9');
        let prefix = decimal_digits(n / 10);
        assert forall|i: int|
            0 <= i < decimal_digits(n).len() implies '0' <= #[trigger] decimal_digits(n)[i]
            <= '9' by {
            if i < prefix.len() {
                assert(decimal_digits(n)[i] == prefix[i]);
            }
        }
    }
}

/// Distinct column numbers have distinct column names.
pub proof fn lemma_column_letters_injective(m: int, n: int)
    requires
        0 <= m,
        0 <= n,
        column_letters(m) == column_letters(n),
    ensures
        m == n,
    decreases m,
{
    if m == 0 {
        if n > 0 {
            assert(column_letters(n).len() >= 1);
        }
    } else if n == 0 {
        assert(column_letters(m).len() >= 1);
    } else {
        let pm = column_letters((m - 1) / 26);
        let pn = column_letters((n - 1) / 26);
        let lm = letter_of((m - 1) % 26);
        let ln = letter_of((n - 1) % 26);
        assert(pm.push(lm).last() == lm);
        assert(pn.push(ln).last() == ln);
        assert(lm == ln);
        assert(pm == pn) by {
            assert(pm.push(lm).drop_last() =~= pm);
            assert(pn.push(ln).drop_last() =~= pn);
        }
        lemma_mod_division_less_than_divisor(m - 1, 26);
        lemma_mod_division_less_than_divisor(n - 1, 26);
        assert((m - 1) % 26 == (n - 1) % 26);
        lemma_column_letters_injective((m - 1) / 26, (n - 1) / 26);
        lemma_fundamental_div_mod(m - 1, 26);
        lemma_fundamental_div_mod(n - 1, 26);
    }
}

/// Distinct row numbers have distinct digit strings.
pub proof fn lemma_decimal_digits_injective(m: int, n: int)
    requires
        0 <= m,
        0 <= n,
        decimal_digits(m) == decimal_digits(n),
    ensures
        m == n,
    decreases m,
{
    if m < 10 && n < 10 {
        assert(decimal_digits(m)[0] == digit_of(m));
        assert(decimal_digits(n)[0] == digit_of(n));
        assert(digit_of(m) == digit_of(n));
    } else if m < 10 {
        lemma_decimal_digits_chars(n / 10);
        assert(decimal_digits(n).len() >= 2);
    } else if n < 10 {
        lemma_decimal_digits_chars(m / 10);
        assert(decimal_digits(m).len() >= 2);
    } else {
        let pm = decimal_digits(m / 10);
        let pn = decimal_digits(n / 10);
        let dm = digit_of(m % 10);
        let dn = digit_of(n % 10);
        assert(pm.push(dm).last() == dm);
        assert(pn.push(dn).last() == dn);
        assert(dm == dn);
        assert(pm == pn) by {
            assert(pm.push(dm).drop_last() =~= pm);
            assert(pn.push(dn).drop_last() =~= pn);
        }
        lemma_mod_division_less_than_divisor(m, 10);
        lemma_mod_division_less_than_divisor(n, 10);
        assert(m % 10 == n % 10);
        lemma_decimal_digits_injective(m / 10, n / 10);
        lemma_fundamental_div_mod(m, 10);
        lemma_fundamental_div_mod(n, 10);
    }
}

/// Law: display names are unique per address — two cells with the same
/// name sit at the same column and row. This is what makes a name-keyed
/// cell store hold at most one cell per address.
pub proof fn lemma_name_injective(a: Cell, b: Cell)
    requires
        a.spec_name() == b.spec_name(),
    ensures
        a.spec_col() == b.spec_col(),
        a.spec_row() == b.spec_row(),
{
    let la = column_letters(a.spec_col());
    let da = decimal_digits(a.spec_row());
    let lb = column_letters(b.spec_col());
    let db = decimal_digits(b.spec_row());
    lemma_column_letters_chars(a.spec_col());
    lemma_column_letters_chars(b.spec_col());
    lemma_decimal_digits_chars(a.spec_row());
    lemma_decimal_digits_chars(b.spec_row());
    assert(la + da == a.spec_name());
    assert(lb + db == b.spec_name());
    assert((la + da).len() == la.len() + da.len());
    assert((lb + db).len() == lb.len() + db.len());
    assert(la.len() + da.len() == lb.len() + db.len());
    if la.len() < lb.len() {
        let k = la.len() as int;
        assert((la + da)[k] == da[0]);
        assert((lb + db)[k] == lb[k]);
        assert(false);
    }
    if lb.len() < la.len() {
        let k = lb.len() as int;
        assert((lb + db)[k] == db[0]);
        assert((la + da)[k] == la[k]);
        assert(false);
    }
    assert(la =~= lb) by {
        assert forall|i: int| 0 <= i < la.len() implies la[i] == lb[i] by {
            assert((la + da)[i] == la[i]);
            assert((lb + db)[i] == lb[i]);
        }
    }
    assert(da =~= db) by {
        assert(da.len() == db.len());
        assert forall|i: int| 0 <= i < da.len() implies da[i] == db[i] by {
            assert((la + da)[la.len() + i] == da[i]);
            assert((lb + db)[lb.len() + i] == db[i]);
        }
    }
    lemma_column_letters_injective(a.spec_col(), b.spec_col());
    lemma_decimal_digits_injective(a.spec_row(), b.spec_row());
}


/// A cell's display name is ASCII throughout: capital letters, then
/// decimal digits.
pub proof fn lemma_name_is_ascii(c: Cell)
    ensures
        is_ascii_chars(c.spec_name()),
{
    let l = column_letters(c.spec_col());
    let d = decimal_digits(c.spec_row());
    lemma_column_letters_chars(c.spec_col());
    lemma_decimal_digits_chars(c.spec_row());
    assert(l + d == c.spec_name());
    assert forall|i: int|
        0 <= i < c.spec_name().len() implies '\0' <= #[trigger] c.spec_name()[i]
        <= '\u{7f}' by {
        if i < l.len() {
            assert(c.spec_name()[i] == l[i]);
        } else {
            assert(c.spec_name()[i] == d[i - l.len()]);
        }
    }
}

} // verus!
