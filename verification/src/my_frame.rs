//! The compact three-axis frame payload: three signed 16-bit big-endian
//! values X, Y, Z packed into six bytes.
//!
//! ```text
//!    0                   1
//!    0 1 2 3 4 5 6 7 8 9 0 1 2 3 4 5
//!   +-+-+-+-+-+-+-+-+-+-+-+-+-+-+-+-+
//!   |  X high bits  |  X low bits   |
//!   +-+-+-+-+-+-+-+-+-+-+-+-+-+-+-+-+
//!   |  Y high bits  |  Y low bits   |
//!   +-+-+-+-+-+-+-+-+-+-+-+-+-+-+-+-+
//!   |  Z high bits  |  Z low bits   |
//!   +-+-+-+-+-+-+-+-+-+-+-+-+-+-+-+-+
//! ```

use vstd::prelude::*;
use vstd::string::StringExecFns;
use crate::codec::{i16_be, i16_from_be};

verus! {

/// Byte length of the packed payload.
pub const MY_FRAME_LEN: usize = 6;

/// The decimal digit character for `d` (0 through 9).
pub open spec fn dec_digit(d: int) -> char {
    if d == 0 { '0' }
    else if d == 1 { '1' }
    else if d == 2 { '2' }
    else if d == 3 { '3' }
    else if d == 4 { '4' }
    else if d == 5 { '5' }
    else if d == 6 { '6' }
    else if d == 7 { '7' }
    else if d == 8 { '8' }
    else { '9' }
}

/// The decimal digits of a non-negative number, most significant first.
pub open spec fn dec_nat(n: int) -> Seq<char>
    recommends
        n >= 0,
    decreases n,
{
    if n < 10 {
        seq![dec_digit(n)]
    } else {
        dec_nat(n / 10).push(dec_digit(n % 10))
    }
}

/// The decimal text of a signed 16-bit value: a minus sign for negatives,
/// then the digits of its absolute value.
pub open spec fn dec_i16(v: i16) -> Seq<char> {
    if v < 0 {
        seq!['-'] + dec_nat(-(v as int))
    } else {
        dec_nat(v as int)
    }
}

/// The display text of a frame holding the values `(x, y, z)`.
pub open spec fn frame_text(x: i16, y: i16, z: i16) -> Seq<char> {
    seq!['x', ':', ' '] + dec_i16(x)
        + seq![',', ' ', 'y', ':', ' '] + dec_i16(y)
        + seq![',', ' ', 'z', ':', ' '] + dec_i16(z)
}

fn digit_str(d: u8) -> (r: &'static str)
    requires
        d < 10,
    ensures
        r@ == seq![dec_digit(d as int)],
{
    let r: &'static str = if d == 0 { "0" }
    else if d == 1 { "1" }
    else if d == 2 { "2" }
    else if d == 3 { "3" }
    else if d == 4 { "4" }
    else if d == 5 { "5" }
    else if d == 6 { "6" }
    else if d == 7 { "7" }
    else if d == 8 { "8" }
    else { "9" };
    proof {
        reveal_strlit("0");
        reveal_strlit("1");
        reveal_strlit("2");
        reveal_strlit("3");
        reveal_strlit("4");
        reveal_strlit("5");
        reveal_strlit("6");
        reveal_strlit("7");
        reveal_strlit("8");
        reveal_strlit("9");
        assert(r@ =~= seq![dec_digit(d as int)]);
    }
    r
}

fn push_dec_u16(out: &mut String, n: u16)
    ensures
        final(out)@ == old(out)@ + dec_nat(n as int),
    decreases n,
{
    if n >= 10 {
        push_dec_u16(out, n / 10);
    }
    out.append(digit_str((n % 10) as u8));
    proof {
        assert(final(out)@ =~= old(out)@ + dec_nat(n as int));
    }
}

fn push_dec_i16(out: &mut String, v: i16)
    ensures
        final(out)@ == old(out)@ + dec_i16(v),
{
    if v < 0 {
        out.append("-");
        let m: u16 = (-(v as i32)) as u16;
        push_dec_u16(out, m);
        proof {
            reveal_strlit("-");
            assert("-"@ =~= seq!['-']);
            assert(final(out)@ =~= old(out)@ + dec_i16(v));
        }
    } else {
        push_dec_u16(out, v as u16);
    }
}

/// Six packed payload bytes: the big-endian pairs of X, Y and Z.
pub struct MyFrame {
    x_h: u8,
    x_l: u8,
    y_h: u8,
    y_l: u8,
    z_h: u8,
    z_l: u8,
}

impl View for MyFrame {
    type V = Seq<u8>;

    closed spec fn view(&self) -> Seq<u8> {
        seq![self.x_h, self.x_l, self.y_h, self.y_l, self.z_h, self.z_l]
    }
}

impl MyFrame {
    /// The X value packed in the first byte pair.
    pub open spec fn spec_x(self) -> i16 {
        i16_be(self@[0], self@[1]) as i16
    }

    /// The Y value packed in the second byte pair.
    pub open spec fn spec_y(self) -> i16 {
        i16_be(self@[2], self@[3]) as i16
    }

    /// The Z value packed in the third byte pair.
    pub open spec fn spec_z(self) -> i16 {
        i16_be(self@[4], self@[5]) as i16
    }

    /// An all-zero frame.
    pub fn new() -> (f: Self)
        ensures
            f@ == seq![0u8, 0u8, 0u8, 0u8, 0u8, 0u8],
    {
        let f = Self { x_h: 0, x_l: 0, y_h: 0, y_l: 0, z_h: 0, z_l: 0 };
        proof {
            assert(f@ =~= seq![0u8, 0u8, 0u8, 0u8, 0u8, 0u8]);
        }
        f
    }

    /// Reads a frame from exactly six bytes.
    pub fn from_fixed(buf: &[u8; 6]) -> (f: Self)
        ensures
            f@ == buf@,
    {
        let f = Self {
            x_h: buf[0], x_l: buf[1],
            y_h: buf[2], y_l: buf[3],
            z_h: buf[4], z_l: buf[5],
        };
        proof {
            assert(f@ =~= buf@);
        }
        f
    }

    /// Reads a frame from the first six bytes of `buf`; refused when fewer
    /// than six are there.
    pub fn from_vec(buf: &Vec<u8>) -> (r: Result<Self, ()>)
        ensures
            buf@.len() < MY_FRAME_LEN <==> r is Err,
            r matches Ok(f) ==> f@ == buf@.take(MY_FRAME_LEN as int),
    {
        if buf.len() < MY_FRAME_LEN {
            Err(())
        } else {
            let f = Self {
                x_h: buf[0], x_l: buf[1],
                y_h: buf[2], y_l: buf[3],
                z_h: buf[4], z_l: buf[5],
            };
            proof {
                assert(f@ =~= buf@.take(MY_FRAME_LEN as int));
            }
            Ok(f)
        }
    }

    /// The six payload bytes, as a vector.
    pub fn to_vec(&self) -> (r: Vec<u8>)
        ensures
            r@ == self@,
    {
        let mut r: Vec<u8> = Vec::new();
        r.push(self.x_h);
        r.push(self.x_l);
        r.push(self.y_h);
        r.push(self.y_l);
        r.push(self.z_h);
        r.push(self.z_l);
        proof {
            assert(r@ =~= self@);
        }
        r
    }

    /// Renders the three values as `x: <X>, y: <Y>, z: <Z>` in decimal.
    pub fn to_string(&self) -> (r: String)
        ensures
            r@ == frame_text(self.spec_x(), self.spec_y(), self.spec_z()),
    {
        let mut r = String::new();
        r.append("x: ");
        push_dec_i16(&mut r, self.get_x());
        r.append(", y: ");
        push_dec_i16(&mut r, self.get_y());
        r.append(", z: ");
        push_dec_i16(&mut r, self.get_z());
        proof {
            reveal_strlit("x: ");
            reveal_strlit(", y: ");
            reveal_strlit(", z: ");
            assert("x: "@ =~= seq!['x', ':', ' ']);
            assert(", y: "@ =~= seq![',', ' ', 'y', ':', ' ']);
            assert(", z: "@ =~= seq![',', ' ', 'z', ':', ' ']);
            assert(r@ =~= frame_text(self.spec_x(), self.spec_y(), self.spec_z()));
        }
        r
    }

    /// The X value packed in the first byte pair.
    pub fn get_x(&self) -> (r: i16)
        ensures
            r == self.spec_x(),
            r as int == i16_be(self@[0], self@[1]),
    {
        i16_from_be(self.x_h, self.x_l)
    }

    /// The Y value packed in the second byte pair.
    pub fn get_y(&self) -> (r: i16)
        ensures
            r == self.spec_y(),
            r as int == i16_be(self@[2], self@[3]),
    {
        i16_from_be(self.y_h, self.y_l)
    }

    /// The Z value packed in the third byte pair.
    pub fn get_z(&self) -> (r: i16)
        ensures
            r == self.spec_z(),
            r as int == i16_be(self@[4], self@[5]),
    {
        i16_from_be(self.z_h, self.z_l)
    }

    /// The six payload bytes, as a fixed array.
    pub fn as_bytes(&self) -> (r: [u8; 6])
        ensures
            r@ == self@,
    {
        let r: [u8; 6] = [self.x_h, self.x_l, self.y_h, self.y_l, self.z_h, self.z_l];
        proof {
            assert(r@ =~= self@);
        }
        r
    }
}

} // verus!
