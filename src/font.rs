use vstd::prelude::*;

use crate::point::Point;
use vstd::string::StringSliceAdditionalSpecFns;

verus! {

/// A bitmap glyph: the points set in a `width` by `height` cell.
pub struct Glyph {
    pub width: usize,
    pub height: usize,
    pub points: Vec<Point>,
}

impl Glyph {
    pub fn width(&self) -> (r: usize)
        ensures
            r == self.width,
    {
        self.width
    }

    pub fn height(&self) -> (r: usize)
        ensures
            r == self.height,
    {
        self.height
    }

    pub fn points(&self) -> (r: &[Point])
        ensures
            r@ == self.points@,
    {
        self.points.as_slice()
    }
}

/// The glyph drawn by a text picture, as a plain value.
pub struct GlyphShape {
    pub width: int,
    pub height: int,
    pub points: Seq<Point>,
}

/// The marker of a set point in a glyph picture.
pub const DOT: u8 = 0x24;

pub const NEWLINE: u8 = 0x0a;

pub const RETURN: u8 = 0x0d;

/// Whether a byte continues a UTF-8 character rather than starting one.
pub open spec fn is_continuation(b: u8) -> bool {
    0x80 <= b < 0xc0
}

/// Reading a glyph picture byte by byte: `(column, line_bytes, row, width,
/// points)` after the bytes `s`.  The picture's lines end at a newline, and
/// a carriage return just before the newline belongs to the line ending.
/// `column` counts the characters and `line_bytes` the bytes read of the
/// current line; a `$` sets the point at that column and row; `width` is
/// the longest finished line, in bytes without its ending.
pub open spec fn scan_glyph(s: Seq<u8>) -> (int, int, int, int, Seq<Point>)
    decreases s.len(),
{
    if s.len() == 0 {
        (0, 0, 0, 0, Seq::empty())
    } else {
        let prev = scan_glyph(s.drop_last());
        let c = s.last();
        if c == NEWLINE {
            let line_len = if s.len() >= 2 && s[s.len() - 2] == RETURN {
                prev.1 - 1
            } else {
                prev.1
            };
            (0, 0, prev.2 + 1, if line_len > prev.3 {
                line_len
            } else {
                prev.3
            }, prev.4)
        } else {
            (
                if is_continuation(c) {
                    prev.0
                } else {
                    prev.0 + 1
                },
                prev.1 + 1,
                prev.2,
                prev.3,
                if c == DOT {
                    prev.4.push(Point { x: prev.0 as isize, y: prev.2 as isize })
                } else {
                    prev.4
                },
            )
        }
    }
}

/// The glyph a picture draws: one row per line (a last line without an
/// ending counts when it is not empty), a point for each `$` at its
/// character column, and the width of the longest line in bytes.
pub open spec fn glyph_of(s: Seq<u8>) -> GlyphShape {
    let st = scan_glyph(s);
    GlyphShape {
        width: if st.1 > st.3 {
            st.1
        } else {
            st.3
        },
        height: if st.1 > 0 {
            st.2 + 1
        } else {
            st.2
        },
        points: st.4,
    }
}

pub open spec fn glyph_shape(g: Glyph) -> GlyphShape {
    GlyphShape { width: g.width as int, height: g.height as int, points: g.points@ }
}

/// Reads a glyph picture (see `glyph_of`).
pub fn glyph_from_str(s: &str) -> (g: Glyph)
    ensures
        glyph_shape(g) == glyph_of(s.spec_bytes()),
{
    let bytes = s.as_bytes();
    let n = bytes.len();
    let mut col: usize = 0;
    let mut line_bytes: usize = 0;
    let mut row: usize = 0;
    let mut width: usize = 0;
    let mut points: Vec<Point> = Vec::new();
    let mut i: usize = 0;
    while i < n
        invariant
            n == bytes@.len(),
            bytes@ == s.spec_bytes(),
            i <= n,
            col <= line_bytes,
            row + line_bytes <= i,
            width <= i,
            i > 0 && bytes@[i - 1] != NEWLINE ==> line_bytes > 0,
            (col as int, line_bytes as int, row as int, width as int, points@) == scan_glyph(
                bytes@.take(i as int),
            ),
        decreases n - i,
    {
        let c = bytes[i];
        assert(bytes@.take(i + 1).drop_last() =~= bytes@.take(i as int));
        assert(bytes@.take(i + 1).last() == c);
        if c == NEWLINE {
            let line_len = if i > 0 && bytes[i - 1] == RETURN {
                assert(bytes@.take(i + 1)[i - 1] == bytes@[i - 1]);
                line_bytes - 1
            } else {
                line_bytes
            };
            if line_len > width {
                width = line_len;
            }
            col = 0;
            line_bytes = 0;
            row = row + 1;
        } else {
            if c == DOT {
                points.push(Point { x: col as isize, y: row as isize });
            }
            if c < 0x80 || c >= 0xc0 {
                col = col + 1;
            }
            line_bytes = line_bytes + 1;
        }
        i = i + 1;
    }
    assert(bytes@.take(n as int) =~= bytes@);
    if line_bytes > width {
        width = line_bytes;
    }
    let height = if line_bytes > 0 {
        row + 1
    } else {
        row
    };
    Glyph { width, height, points }
}

/// A bitmap font: glyphs keyed by the character they draw.  Where a character
/// is listed twice, the later entry counts.
pub struct Font {
    pub glyphs: Vec<(char, Glyph)>,
}

/// The index of the last entry for `c`, or -1 where there is none.
pub open spec fn lookup_index(glyphs: Seq<(char, Glyph)>, c: char) -> int
    decreases glyphs.len(),
{
    if glyphs.len() == 0 {
        -1
    } else if glyphs.last().0 == c {
        glyphs.len() - 1
    } else {
        lookup_index(glyphs.drop_last(), c)
    }
}

pub(crate) proof fn lemma_lookup_index_range(glyphs: Seq<(char, Glyph)>, c: char)
    ensures
        -1 <= lookup_index(glyphs, c) < glyphs.len(),
        lookup_index(glyphs, c) >= 0 ==> glyphs[lookup_index(glyphs, c)].0 == c,
        lookup_index(glyphs, c) == -1 <==> forall|i: int|
            0 <= i < glyphs.len() ==> (#[trigger] glyphs[i]).0 != c,
    decreases glyphs.len(),
{
    if glyphs.len() > 0 {
        lemma_lookup_index_range(glyphs.drop_last(), c);
        if glyphs.last().0 != c {
            assert forall|i: int| 0 <= i < glyphs.len() - 1 implies glyphs.drop_last()[i] == #[trigger] glyphs[i] by {}
        }
    }
}

impl Font {
    pub fn new(glyphs: Vec<(char, Glyph)>) -> (f: Font)
        ensures
            f.glyphs@ == glyphs@,
    {
        Font { glyphs }
    }

    /// The glyph for `c`, if the font has one.
    pub fn glyph(&self, c: char) -> (r: Option<&Glyph>)
        ensures
            lookup_index(self.glyphs@, c) == -1 ==> r is None,
            lookup_index(self.glyphs@, c) >= 0 ==> r == Some(&self.glyphs@[lookup_index(self.glyphs@, c)].1),
    {
        proof {
            lemma_lookup_index_range(self.glyphs@, c);
        }
        let mut i: usize = self.glyphs.len();
        assert(self.glyphs@.take(i as int) =~= self.glyphs@);
        while i > 0
            invariant
                i <= self.glyphs@.len(),
                lookup_index(self.glyphs@, c) == lookup_index(self.glyphs@.take(i as int), c),
            decreases i,
        {
            let ghost prefix = self.glyphs@.take(i as int);
            if self.glyphs[i - 1].0 == c {
                return Some(&self.glyphs[i - 1].1);
            }
            assert(prefix.drop_last() =~= self.glyphs@.take(i - 1));
            i = i - 1;
        }
        None
    }
}

pub const A_CAP: &'static str = " $
$ $
$$$
$ $
$ $
";
pub const B_CAP: &'static str = "$$
$ $
$$
$ $
$$
";
pub const C_CAP: &'static str = " $$
$
$
$
 $$
";
pub const D_CAP: &'static str = "$$
$ $
$ $
$ $
$$
";
pub const E_CAP: &'static str = "$$$
$
$$
$
$$$
";
pub const F_CAP: &'static str = "$$$
$
$$
$
$
";
pub const G_CAP: &'static str = " $$$
$
$ $$
$  $
 $$
";
pub const H_CAP: &'static str = "$ $
$ $
$$$
$ $
$ $
";
pub const I_CAP: &'static str = "$$$
 $
 $
 $
$$$
";
pub const J_CAP: &'static str = "  $
  $
  $
$ $
 $
";
pub const K_CAP: &'static str = "$ $
$ $
$$
$ $
$ $
";
pub const L_CAP: &'static str = "$
$
$
$
$$$
";
pub const M_CAP: &'static str = "$   $
$$ $$
$ $ $
$   $
$   $
";
pub const N_CAP: &'static str = "$  $
$$ $
$ $$
$  $
$  $
";
pub const O_CAP: &'static str = " $
$ $
$ $
$ $
 $
";
pub const P_CAP: &'static str = "$$
$ $
$$
$
$
";
pub const Q_CAP: &'static str = " $
$ $
$ $
$ $
 $$
";
pub const R_CAP: &'static str = "$$
$ $
$$
$ $
$ $
";
pub const S_CAP: &'static str = " $$
$
 $
  $
$$
";
pub const T_CAP: &'static str = "$$$
 $
 $
 $
 $
";
pub const U_CAP: &'static str = "$  $
$  $
$  $
$  $
 $$
";
pub const V_CAP: &'static str = "$ $
$ $
$ $
$ $
 $
";
pub const W_CAP: &'static str = "$   $
$   $
$   $
$ $ $
 $ $
";
pub const X_CAP: &'static str = "$ $
 $
$ $
$ $
$ $
";
pub const Y_CAP: &'static str = "$ $
 $
 $
 $
 $
";
pub const Z_CAP: &'static str = "$$$
 $
$
$
$$$
";

pub const A_LOW: &'static str = "

 $$
$ $
 $$
";
pub const B_LOW: &'static str = "$
$
$$
$ $
$$
";
pub const C_LOW: &'static str = "

 $
$
 $
";
pub const D_LOW: &'static str = "  $
  $
 $$
$ $
 $$
";
pub const E_LOW: &'static str = "
 $
$$$
$
 $$
";
pub const F_LOW: &'static str = "  $
 $
$$$
 $
 $
";
pub const G_LOW: &'static str = "
 $$
$ $
 $$
  $
$$
";
pub const H_LOW: &'static str = "$
$
$$
$ $
$ $
";
pub const I_LOW: &'static str = "$

$
$
$
";
pub const J_LOW: &'static str = "  $

  $
  $
$ $
 $
";
pub const K_LOW: &'static str = "$
$
$ $
$$
$ $
";
pub const L_LOW: &'static str = "$
$
$
$
 $
";
pub const M_LOW: &'static str = "

$$ $
$ $ $
$   $
";
pub const N_LOW: &'static str = "

$$
$ $
$ $
";
pub const O_LOW: &'static str = "

 $
$ $
 $
";
pub const P_LOW: &'static str = "

$$
$ $
$$
$
";
pub const Q_LOW: &'static str = "

 $
$ $
 $$
  $
";
pub const R_LOW: &'static str = "

$$
$
$
";
pub const S_LOW: &'static str = "
 $
$
 $
$
";
pub const T_LOW: &'static str = "
 $
$$$
 $
  $
";
pub const U_LOW: &'static str = "

$ $
$ $
 $$
";
pub const V_LOW: &'static str = "

$ $
$ $
 $
";
pub const W_LOW: &'static str = "

$   $
$ $ $
 $ $
";
pub const X_LOW: &'static str = "

$ $
 $
$ $
";
pub const Y_LOW: &'static str = "

$ $
 $$
  $
$$
";
pub const Z_LOW: &'static str = "
$$$$
  $
 $
$$$$
";

pub const ZERO: &'static str = " $$
$ $$
$$ $
$  $
 $$
";
pub const ONE: &'static str = " $
$$
 $
 $
$$$
";
pub const TWO: &'static str = " $$
$  $
  $
 $
$$$$
";
pub const THREE: &'static str = "$$
  $
 $
  $
$$
";
pub const FOUR: &'static str = "  $
 $$
$ $
$$$$
  $
";
pub const FIVE: &'static str = "$$$
$
$$
  $
$$
";
pub const SIX: &'static str = " $$
$
$$
$ $
 $
";
pub const SEVEN: &'static str = "$$$
  $
 $
 $
 $
";
pub const EIGHT: &'static str = " $
$ $
 $
$ $
 $
";
pub const NINE: &'static str = " $
$ $
 $$
  $
$$
";

pub const SPACE: &'static str = " 
";
pub const EXCLAMATION: &'static str = "$
$
$

$
";
pub const QUESTION: &'static str = "$$
  $
 $

 $
";
pub const PERIOD: &'static str = "



$
";
pub const COMMA: &'static str = "



$
$
";
pub const SINGLE_QUOTE: &'static str = "$
$
";
pub const DOUBLE_QUOTE: &'static str = "$ $
$ $
";
pub const LEFT_PAREN: &'static str = " $
$
$
$
 $
";
pub const RIGHT_PAREN: &'static str = "$
 $
 $
 $
$
";
pub const LEFT_BRACKET: &'static str = "$$
$
$
$
$$
";
pub const RIGHT_BRACKET: &'static str = "$$
 $
 $
 $
$$
";
pub const LEFT_BRACE: &'static str = "  $
 $
$$
 $
  $
";
pub const RIGHT_BRACE: &'static str = "$
 $
 $$
 $
$
";
pub const LEFT_ANGLE: &'static str = "  $
 $
$
 $
  $
";
pub const RIGHT_ANGLE: &'static str = "$
 $
  $
 $
$
";
pub const COLON: &'static str = "

$

$
";
pub const SEMICOLON: &'static str = "

$

$
$
";
pub const SLASH: &'static str = " $
 $
$
$
$
";
pub const BACKSLASH: &'static str = "$
$
 $
 $
 $
";
pub const DASH: &'static str = "

$$$
";
pub const UNDERSCORE: &'static str = "



$$$
";
pub const EQUALS: &'static str = "
$$$

$$$
";
pub const PLUS: &'static str = "
 $
$$$
 $
";
pub const ASTERISK: &'static str = "
 $
$$$
 $
$ $
";
pub const AMPERSAND: &'static str = " $
$ $
 $
$ $$
 $$$
";
pub const CARET: &'static str = " $
$ $
";
pub const PERCENT: &'static str = "$ $
  $
 $
$
$ $
";
pub const DOLLAR: &'static str = " $$$$
$ $
 $$$
  $ $
$$$$
";
pub const HASH: &'static str = " $ $
$$$$$
 $ $
$$$$$
 $ $
";
pub const AT: &'static str = " $$$
$   $
$  $$
$ $ $
 $$$$
";
pub const BACKTICK: &'static str = "$
";
pub const TILDE: &'static str = "
 $ $
$ $
";
pub const PIPE: &'static str = "$
$
$
$
$
";

pub const UNKNOWN: &'static str = "$$$
$$$
$$$
$$$
$$$
";

/// The glyph drawn for characters a font lacks: a filled block.
pub fn unknown_glyph() -> (g: Glyph)
    ensures
        glyph_shape(g) == glyph_of(UNKNOWN.spec_bytes()),
{
    glyph_from_str(UNKNOWN)
}

/// The characters of a glyph list with the glyphs as plain values.
pub open spec fn font_shapes(glyphs: Seq<(char, Glyph)>) -> Seq<(char, GlyphShape)> {
    glyphs.map_values(|e: (char, Glyph)| (e.0, glyph_shape(e.1)))
}

fn add_glyph(glyphs: &mut Vec<(char, Glyph)>, c: char, art: &str)
    ensures
        font_shapes(final(glyphs)@) == font_shapes(old(glyphs)@).push((c, glyph_of(art.spec_bytes()))),
{
    glyphs.push((c, glyph_from_str(art)));
    assert(font_shapes(glyphs@) =~= font_shapes(old(glyphs)@).push((c, glyph_of(art.spec_bytes()))));
}

/// The characters of the built-in font with their pictures, in order.
pub open spec fn default_glyphs() -> Seq<(char, GlyphShape)> {
    Seq::empty()
        .push(('A', glyph_of(A_CAP.spec_bytes())))
        .push(('B', glyph_of(B_CAP.spec_bytes())))
        .push(('C', glyph_of(C_CAP.spec_bytes())))
        .push(('D', glyph_of(D_CAP.spec_bytes())))
        .push(('E', glyph_of(E_CAP.spec_bytes())))
        .push(('F', glyph_of(F_CAP.spec_bytes())))
        .push(('G', glyph_of(G_CAP.spec_bytes())))
        .push(('H', glyph_of(H_CAP.spec_bytes())))
        .push(('I', glyph_of(I_CAP.spec_bytes())))
        .push(('J', glyph_of(J_CAP.spec_bytes())))
        .push(('K', glyph_of(K_CAP.spec_bytes())))
        .push(('L', glyph_of(L_CAP.spec_bytes())))
        .push(('M', glyph_of(M_CAP.spec_bytes())))
        .push(('N', glyph_of(N_CAP.spec_bytes())))
        .push(('O', glyph_of(O_CAP.spec_bytes())))
        .push(('P', glyph_of(P_CAP.spec_bytes())))
        .push(('Q', glyph_of(Q_CAP.spec_bytes())))
        .push(('R', glyph_of(R_CAP.spec_bytes())))
        .push(('S', glyph_of(S_CAP.spec_bytes())))
        .push(('T', glyph_of(T_CAP.spec_bytes())))
        .push(('U', glyph_of(U_CAP.spec_bytes())))
        .push(('V', glyph_of(V_CAP.spec_bytes())))
        .push(('W', glyph_of(W_CAP.spec_bytes())))
        .push(('X', glyph_of(X_CAP.spec_bytes())))
        .push(('Y', glyph_of(Y_CAP.spec_bytes())))
        .push(('Z', glyph_of(Z_CAP.spec_bytes())))
        .push(('a', glyph_of(A_LOW.spec_bytes())))
        .push(('b', glyph_of(B_LOW.spec_bytes())))
        .push(('c', glyph_of(C_LOW.spec_bytes())))
        .push(('d', glyph_of(D_LOW.spec_bytes())))
        .push(('e', glyph_of(E_LOW.spec_bytes())))
        .push(('f', glyph_of(F_LOW.spec_bytes())))
        .push(('g', glyph_of(G_LOW.spec_bytes())))
        .push(('h', glyph_of(H_LOW.spec_bytes())))
        .push(('i', glyph_of(I_LOW.spec_bytes())))
        .push(('j', glyph_of(J_LOW.spec_bytes())))
        .push(('k', glyph_of(K_LOW.spec_bytes())))
        .push(('l', glyph_of(L_LOW.spec_bytes())))
        .push(('m', glyph_of(M_LOW.spec_bytes())))
        .push(('n', glyph_of(N_LOW.spec_bytes())))
        .push(('o', glyph_of(O_LOW.spec_bytes())))
        .push(('p', glyph_of(P_LOW.spec_bytes())))
        .push(('q', glyph_of(Q_LOW.spec_bytes())))
        .push(('r', glyph_of(R_LOW.spec_bytes())))
        .push(('s', glyph_of(S_LOW.spec_bytes())))
        .push(('t', glyph_of(T_LOW.spec_bytes())))
        .push(('u', glyph_of(U_LOW.spec_bytes())))
        .push(('v', glyph_of(V_LOW.spec_bytes())))
        .push(('w', glyph_of(W_LOW.spec_bytes())))
        .push(('x', glyph_of(X_LOW.spec_bytes())))
        .push(('y', glyph_of(Y_LOW.spec_bytes())))
        .push(('z', glyph_of(Z_LOW.spec_bytes())))
        .push(('0', glyph_of(ZERO.spec_bytes())))
        .push(('1', glyph_of(ONE.spec_bytes())))
        .push(('2', glyph_of(TWO.spec_bytes())))
        .push(('3', glyph_of(THREE.spec_bytes())))
        .push(('4', glyph_of(FOUR.spec_bytes())))
        .push(('5', glyph_of(FIVE.spec_bytes())))
        .push(('6', glyph_of(SIX.spec_bytes())))
        .push(('7', glyph_of(SEVEN.spec_bytes())))
        .push(('8', glyph_of(EIGHT.spec_bytes())))
        .push(('9', glyph_of(NINE.spec_bytes())))
        .push((' ', glyph_of(SPACE.spec_bytes())))
        .push(('!', glyph_of(EXCLAMATION.spec_bytes())))
        .push(('?', glyph_of(QUESTION.spec_bytes())))
        .push(('.', glyph_of(PERIOD.spec_bytes())))
        .push((',', glyph_of(COMMA.spec_bytes())))
        .push(('\'', glyph_of(SINGLE_QUOTE.spec_bytes())))
        .push(('"', glyph_of(DOUBLE_QUOTE.spec_bytes())))
        .push(('(', glyph_of(LEFT_PAREN.spec_bytes())))
        .push((')', glyph_of(RIGHT_PAREN.spec_bytes())))
        .push(('[', glyph_of(LEFT_BRACKET.spec_bytes())))
        .push((']', glyph_of(RIGHT_BRACKET.spec_bytes())))
        .push(('{', glyph_of(LEFT_BRACE.spec_bytes())))
        .push(('}', glyph_of(RIGHT_BRACE.spec_bytes())))
        .push(('<', glyph_of(LEFT_ANGLE.spec_bytes())))
        .push(('>', glyph_of(RIGHT_ANGLE.spec_bytes())))
        .push((':', glyph_of(COLON.spec_bytes())))
        .push((';', glyph_of(SEMICOLON.spec_bytes())))
        .push(('/', glyph_of(SLASH.spec_bytes())))
        .push(('\\', glyph_of(BACKSLASH.spec_bytes())))
        .push(('-', glyph_of(DASH.spec_bytes())))
        .push(('_', glyph_of(UNDERSCORE.spec_bytes())))
        .push(('=', glyph_of(EQUALS.spec_bytes())))
        .push(('+', glyph_of(PLUS.spec_bytes())))
        .push(('*', glyph_of(ASTERISK.spec_bytes())))
        .push(('&', glyph_of(AMPERSAND.spec_bytes())))
        .push(('^', glyph_of(CARET.spec_bytes())))
        .push(('%', glyph_of(PERCENT.spec_bytes())))
        .push(('$', glyph_of(DOLLAR.spec_bytes())))
        .push(('#', glyph_of(HASH.spec_bytes())))
        .push(('@', glyph_of(AT.spec_bytes())))
        .push(('`', glyph_of(BACKTICK.spec_bytes())))
        .push(('~', glyph_of(TILDE.spec_bytes())))
        .push(('|', glyph_of(PIPE.spec_bytes())))
}

/// The built-in font: Latin letters, digits and ASCII punctuation.
pub fn default_font() -> (f: Font)
    ensures
        font_shapes(f.glyphs@) == default_glyphs(),
{
    let mut glyphs: Vec<(char, Glyph)> = Vec::new();
    assert(font_shapes(glyphs@) =~= Seq::empty());
    add_glyph(&mut glyphs, 'A', A_CAP);
    add_glyph(&mut glyphs, 'B', B_CAP);
    add_glyph(&mut glyphs, 'C', C_CAP);
    add_glyph(&mut glyphs, 'D', D_CAP);
    add_glyph(&mut glyphs, 'E', E_CAP);
    add_glyph(&mut glyphs, 'F', F_CAP);
    add_glyph(&mut glyphs, 'G', G_CAP);
    add_glyph(&mut glyphs, 'H', H_CAP);
    add_glyph(&mut glyphs, 'I', I_CAP);
    add_glyph(&mut glyphs, 'J', J_CAP);
    add_glyph(&mut glyphs, 'K', K_CAP);
    add_glyph(&mut glyphs, 'L', L_CAP);
    add_glyph(&mut glyphs, 'M', M_CAP);
    add_glyph(&mut glyphs, 'N', N_CAP);
    add_glyph(&mut glyphs, 'O', O_CAP);
    add_glyph(&mut glyphs, 'P', P_CAP);
    add_glyph(&mut glyphs, 'Q', Q_CAP);
    add_glyph(&mut glyphs, 'R', R_CAP);
    add_glyph(&mut glyphs, 'S', S_CAP);
    add_glyph(&mut glyphs, 'T', T_CAP);
    add_glyph(&mut glyphs, 'U', U_CAP);
    add_glyph(&mut glyphs, 'V', V_CAP);
    add_glyph(&mut glyphs, 'W', W_CAP);
    add_glyph(&mut glyphs, 'X', X_CAP);
    add_glyph(&mut glyphs, 'Y', Y_CAP);
    add_glyph(&mut glyphs, 'Z', Z_CAP);
    add_glyph(&mut glyphs, 'a', A_LOW);
    add_glyph(&mut glyphs, 'b', B_LOW);
    add_glyph(&mut glyphs, 'c', C_LOW);
    add_glyph(&mut glyphs, 'd', D_LOW);
    add_glyph(&mut glyphs, 'e', E_LOW);
    add_glyph(&mut glyphs, 'f', F_LOW);
    add_glyph(&mut glyphs, 'g', G_LOW);
    add_glyph(&mut glyphs, 'h', H_LOW);
    add_glyph(&mut glyphs, 'i', I_LOW);
    add_glyph(&mut glyphs, 'j', J_LOW);
    add_glyph(&mut glyphs, 'k', K_LOW);
    add_glyph(&mut glyphs, 'l', L_LOW);
    add_glyph(&mut glyphs, 'm', M_LOW);
    add_glyph(&mut glyphs, 'n', N_LOW);
    add_glyph(&mut glyphs, 'o', O_LOW);
    add_glyph(&mut glyphs, 'p', P_LOW);
    add_glyph(&mut glyphs, 'q', Q_LOW);
    add_glyph(&mut glyphs, 'r', R_LOW);
    add_glyph(&mut glyphs, 's', S_LOW);
    add_glyph(&mut glyphs, 't', T_LOW);
    add_glyph(&mut glyphs, 'u', U_LOW);
    add_glyph(&mut glyphs, 'v', V_LOW);
    add_glyph(&mut glyphs, 'w', W_LOW);
    add_glyph(&mut glyphs, 'x', X_LOW);
    add_glyph(&mut glyphs, 'y', Y_LOW);
    add_glyph(&mut glyphs, 'z', Z_LOW);
    add_glyph(&mut glyphs, '0', ZERO);
    add_glyph(&mut glyphs, '1', ONE);
    add_glyph(&mut glyphs, '2', TWO);
    add_glyph(&mut glyphs, '3', THREE);
    add_glyph(&mut glyphs, '4', FOUR);
    add_glyph(&mut glyphs, '5', FIVE);
    add_glyph(&mut glyphs, '6', SIX);
    add_glyph(&mut glyphs, '7', SEVEN);
    add_glyph(&mut glyphs, '8', EIGHT);
    add_glyph(&mut glyphs, '9', NINE);
    add_glyph(&mut glyphs, ' ', SPACE);
    add_glyph(&mut glyphs, '!', EXCLAMATION);
    add_glyph(&mut glyphs, '?', QUESTION);
    add_glyph(&mut glyphs, '.', PERIOD);
    add_glyph(&mut glyphs, ',', COMMA);
    add_glyph(&mut glyphs, '\'', SINGLE_QUOTE);
    add_glyph(&mut glyphs, '"', DOUBLE_QUOTE);
    add_glyph(&mut glyphs, '(', LEFT_PAREN);
    add_glyph(&mut glyphs, ')', RIGHT_PAREN);
    add_glyph(&mut glyphs, '[', LEFT_BRACKET);
    add_glyph(&mut glyphs, ']', RIGHT_BRACKET);
    add_glyph(&mut glyphs, '{', LEFT_BRACE);
    add_glyph(&mut glyphs, '}', RIGHT_BRACE);
    add_glyph(&mut glyphs, '<', LEFT_ANGLE);
    add_glyph(&mut glyphs, '>', RIGHT_ANGLE);
    add_glyph(&mut glyphs, ':', COLON);
    add_glyph(&mut glyphs, ';', SEMICOLON);
    add_glyph(&mut glyphs, '/', SLASH);
    add_glyph(&mut glyphs, '\\', BACKSLASH);
    add_glyph(&mut glyphs, '-', DASH);
    add_glyph(&mut glyphs, '_', UNDERSCORE);
    add_glyph(&mut glyphs, '=', EQUALS);
    add_glyph(&mut glyphs, '+', PLUS);
    add_glyph(&mut glyphs, '*', ASTERISK);
    add_glyph(&mut glyphs, '&', AMPERSAND);
    add_glyph(&mut glyphs, '^', CARET);
    add_glyph(&mut glyphs, '%', PERCENT);
    add_glyph(&mut glyphs, '$', DOLLAR);
    add_glyph(&mut glyphs, '#', HASH);
    add_glyph(&mut glyphs, '@', AT);
    add_glyph(&mut glyphs, '`', BACKTICK);
    add_glyph(&mut glyphs, '~', TILDE);
    add_glyph(&mut glyphs, '|', PIPE);
    Font { glyphs }
}

} // verus!
