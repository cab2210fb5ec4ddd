use crate::circuit::Circuit;
use crate::text::{push_sp, sp};
use vstd::prelude::*;

verus! {

// The circuit simulator itself is an external engine: the caller submits
// the rendered netlist and an analysis command and reads named vectors
// back.  This module holds what of that exchange is the library's own:
// the callback state the engine fills, and the analysis command strings.

/// What the engine reports back through its callbacks: the log lines it
/// printed, and its exit report.
pub struct Cb {
    pub strs: Vec<String>,
    pub status: i32,
    pub unload: bool,
    pub quit: bool,
}

impl Cb {
    /// A callback state with nothing recorded.
    pub fn new() -> (r: Cb)
        ensures
            r.strs@ == Seq::<String>::empty(),
            r.status == 0,
            r.unload == false,
            r.quit == false,
    {
        Cb { strs: Vec::new(), status: 0, unload: false, quit: false }
    }

    /// Records one line of engine output.
    pub fn send_char(&mut self, s: &str)
        ensures
            final(self).strs.deep_view() == old(self).strs.deep_view().push(s@),
            final(self).status == old(self).status,
            final(self).unload == old(self).unload,
            final(self).quit == old(self).quit,
    {
        let ghost old_dv = self.strs.deep_view();
        self.strs.push(s.to_owned());
        proof {
            assert(self.strs.deep_view() =~= old_dv.push(s@));
        }
    }

    /// Records the engine's exit report.
    pub fn controlled_exit(&mut self, status: i32, unload: bool, quit: bool)
        ensures
            final(self).status == status,
            final(self).unload == unload,
            final(self).quit == quit,
            final(self).strs == old(self).strs,
    {
        self.status = status;
        self.unload = unload;
        self.quit = quit;
    }
}

/// A circuit paired with the engine log of its last run.
pub struct Simulation {
    pub circuit: Circuit,
    pub buffer: Option<Vec<String>>,
}

impl Simulation {
    /// A simulation of `circuit` that has not run yet.
    pub fn new(circuit: Circuit) -> (r: Simulation)
        ensures
            r.circuit == circuit,
            r.buffer is None,
    {
        Simulation { circuit, buffer: None }
    }
}

/// The decimal digit character of `d`.
pub open spec fn dec_digit(d: int) -> char {
    if d == 0 {
        '0'
    } else if d == 1 {
        '1'
    } else if d == 2 {
        '2'
    } else if d == 3 {
        '3'
    } else if d == 4 {
        '4'
    } else if d == 5 {
        '5'
    } else if d == 6 {
        '6'
    } else if d == 7 {
        '7'
    } else if d == 8 {
        '8'
    } else {
        '9'
    }
}

/// The decimal representation of `n`, most significant digit first.
pub open spec fn dec_rep(n: int) -> Seq<char>
    decreases n,
{
    if n < 10 {
        seq![dec_digit(n)]
    } else {
        dec_rep(n / 10) + seq![dec_digit(n % 10)]
    }
}

/// One decimal digit as text.
fn dec_digit_str(d: u32) -> (r: &'static str)
    requires
        d <= 9,
    ensures
        r@ == seq![dec_digit(d as int)],
{
    proof {
        reveal_strlit("0");
        reveal_strlit("1");
        reveal_strlit("2");
        reveal_strlit("3");
        reveal_strlit("4");
        reveal_strlit("5");
        reveal_strlit("6");
        reveal_strlit("7");
        reveal_strlit("8");
        reveal_strlit("9");
    }
    if d == 0 {
        proof {
            assert("0"@ =~= seq![dec_digit(0)]);
        }
        "0"
    } else if d == 1 {
        proof {
            assert("1"@ =~= seq![dec_digit(1)]);
        }
        "1"
    } else if d == 2 {
        proof {
            assert("2"@ =~= seq![dec_digit(2)]);
        }
        "2"
    } else if d == 3 {
        proof {
            assert("3"@ =~= seq![dec_digit(3)]);
        }
        "3"
    } else if d == 4 {
        proof {
            assert("4"@ =~= seq![dec_digit(4)]);
        }
        "4"
    } else if d == 5 {
        proof {
            assert("5"@ =~= seq![dec_digit(5)]);
        }
        "5"
    } else if d == 6 {
        proof {
            assert("6"@ =~= seq![dec_digit(6)]);
        }
        "6"
    } else if d == 7 {
        proof {
            assert("7"@ =~= seq![dec_digit(7)]);
        }
        "7"
    } else if d == 8 {
        proof {
            assert("8"@ =~= seq![dec_digit(8)]);
        }
        "8"
    } else {
        proof {
            assert("9"@ =~= seq![dec_digit(9)]);
        }
        "9"
    }
}

/// `n` written in decimal.
pub fn u32_dec_str(n: u32) -> (r: String)
    ensures
        r@ == dec_rep(n as int),
    decreases n,
{
    if n < 10 {
        let r = dec_digit_str(n).to_owned();
        r
    } else {
        let mut s = u32_dec_str(n / 10);
        s.append(dec_digit_str(n % 10));
        proof {
            assert(s@ =~= dec_rep(n as int / 10) + seq![dec_digit(n as int % 10)]);
        }
        s
    }
}

/// The engine command for a transient analysis with the given step, stop
/// and start times.
pub fn tran_command(step: &str, stop: &str, start: &str) -> (r: String)
    ensures
        r@ == "tran "@ + step@ + sp() + stop@ + sp() + start@,
{
    let mut s = "tran ".to_owned();
    s.append(step);
    push_sp(&mut s);
    s.append(stop);
    push_sp(&mut s);
    s.append(start);
    s
}

/// The engine command for an AC sweep: the variation kind, the number of
/// points in decimal, and the frequency bounds.
pub fn ac_command(
    start_frequency: &str,
    stop_frequency: &str,
    number_of_points: u32,
    variation: &str,
) -> (r: String)
    ensures
        r@ == "ac "@ + variation@ + sp() + dec_rep(number_of_points as int) + sp()
            + start_frequency@ + sp() + stop_frequency@,
{
    let mut s = "ac ".to_owned();
    s.append(variation);
    push_sp(&mut s);
    let pts = u32_dec_str(number_of_points);
    s.append(pts.as_str());
    push_sp(&mut s);
    s.append(start_frequency);
    push_sp(&mut s);
    s.append(stop_frequency);
    s
}

} // verus!
