use vstd::prelude::*;
use vstd::string::*;

verus! {

/// The value of a hexadecimal digit, in either case.
pub open spec fn hex_value(c: char) -> Option<u8> {
    let n = c as u32;
    if 48 <= n <= 57 {
        Some((n - 48) as u8)
    } else if 97 <= n <= 102 {
        Some((n - 87) as u8)
    } else if 65 <= n <= 70 {
        Some((n - 55) as u8)
    } else {
        None
    }
}

/// The six digits of a color code: the text without one leading `#`.
pub open spec fn color_digits(s: Seq<char>) -> Seq<char> {
    if s.len() > 0 && s[0] == '#' {
        s.drop_first()
    } else {
        s
    }
}

/// The byte that the two digits at `i` of `d` spell.
pub open spec fn hex_byte(d: Seq<char>, i: int) -> u8 {
    (hex_value(d[i])->0 * 16 + hex_value(d[i + 1])->0) as u8
}

/// Whether `s` is a color code: an optional `#` and six hexadecimal digits.
pub open spec fn is_color_code(s: Seq<char>) -> bool {
    let d = color_digits(s);
    d.len() == 6 && forall|i: int| 0 <= i < 6 ==> (#[trigger] hex_value(d[i])) is Some
}

/// The lower-case digit for `v`, which is under 16.
pub open spec fn hex_char(v: u8) -> u8 {
    if v < 10 {
        (48 + v) as u8
    } else {
        (87 + v) as u8
    }
}

/// Why a text is no color.
#[derive(Debug, Clone, Copy, PartialEq, Eq, Structural)]
pub enum ColorError {
    /// The text is not `#` and six hexadecimal digits, nor six such digits.
    NotHex,
}

/// A color of red, green and blue components.
#[derive(Debug, Clone, Copy, PartialEq, Eq, PartialOrd, Ord, Structural)]
pub struct Color(pub u8, pub u8, pub u8);

fn hex_value_of(c: char) -> (r: Option<u8>)
    ensures
        r == hex_value(c),
{
    let n = c as u32;
    if 48 <= n && n <= 57 {
        Some((n - 48) as u8)
    } else if 97 <= n && n <= 102 {
        Some((n - 87) as u8)
    } else if 65 <= n && n <= 70 {
        Some((n - 55) as u8)
    } else {
        None
    }
}

fn hex_char_of(v: u8) -> (r: u8)
    requires
        v < 16,
    ensures
        r == hex_char(v),
{
    if v < 10 {
        48 + v
    } else {
        87 + v
    }
}

impl Color {
    /// The color that `s` spells, in either case: an optional `#` and six
    /// hexadecimal digits, two for each component.
    pub fn parse(s: &str) -> (r: Result<Color, ColorError>)
        ensures
            r is Ok <==> is_color_code(s@),
            r matches Ok(c) ==> c.0 == hex_byte(color_digits(s@), 0) && c.1 == hex_byte(
                color_digits(s@),
                2,
            ) && c.2 == hex_byte(color_digits(s@), 4),
    {
        let n = s.unicode_len();
        let start: usize = if n > 0 && s.get_char(0) == '#' {
            1
        } else {
            0
        };
        let ghost d = color_digits(s@);
        if n - start != 6 {
            return Err(ColorError::NotHex);
        }
        assert(d =~= s@.subrange(start as int, n as int));
        let mut vals: Vec<u8> = Vec::new();
        let mut i: usize = 0;
        while i < 6
            invariant
                n == s@.len(),
                start + 6 == n,
                d =~= s@.subrange(start as int, n as int),
                i <= 6,
                vals@.len() == i,
                forall|j: int| 0 <= j < i ==> hex_value(#[trigger] d[j]) == Some(vals@[j]),
            decreases 6 - i,
        {
            match hex_value_of(s.get_char(start + i)) {
                Some(v) => {
                    vals.push(v);
                },
                None => {
                    assert(hex_value(d[i as int]) is None);
                    return Err(ColorError::NotHex);
                },
            }
            i = i + 1;
        }
        assert(forall|j: int| 0 <= j < 6 ==> vals@[j] < 16) by {
            assert forall|j: int| 0 <= j < 6 implies vals@[j] < 16 by {
                assert(hex_value(d[j]) == Some(vals@[j]));
            }
        }
        Ok(Color(vals[0] * 16 + vals[1], vals[2] * 16 + vals[3], vals[4] * 16 + vals[5]))
    }

    /// The color as six lower-case hexadecimal digits, in ASCII: the key of
    /// the color in the `colors` table.
    pub fn to_hex(&self) -> (r: Vec<u8>)
        ensures
            r@ == seq![
                hex_char(self.0 / 16),
                hex_char(self.0 % 16),
                hex_char(self.1 / 16),
                hex_char(self.1 % 16),
                hex_char(self.2 / 16),
                hex_char(self.2 % 16),
            ],
    {
        let mut r: Vec<u8> = Vec::new();
        r.push(hex_char_of(self.0 / 16));
        r.push(hex_char_of(self.0 % 16));
        r.push(hex_char_of(self.1 / 16));
        r.push(hex_char_of(self.1 % 16));
        r.push(hex_char_of(self.2 / 16));
        r.push(hex_char_of(self.2 % 16));
        assert(r@ =~= seq![
            hex_char(self.0 / 16),
            hex_char(self.0 % 16),
            hex_char(self.1 / 16),
            hex_char(self.1 % 16),
            hex_char(self.2 / 16),
            hex_char(self.2 % 16),
        ]);
        r
    }
}

} // verus!
