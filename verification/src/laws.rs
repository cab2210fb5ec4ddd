use crate::circuit::{set_value_at, Circuit, CircuitItem};
use crate::render::{
    inc_lines_spec, item_line, item_lines, prefixed, render_circuit, render_subs,
};
use crate::source::SearchDir;
use crate::text::sp;
use vstd::prelude::*;

verus! {

broadcast use vstd::seq_lib::group_seq_lib_default;

/// Law: a rendered circuit carries exactly one line per element, in
/// insertion order, standing together directly after the include lines and
/// sub-circuit blocks and before the optional closing line.
pub proof fn lemma_one_line_per_element(
    c: Circuit,
    fs: Seq<SearchDir>,
    close: bool,
    lines: Seq<Seq<char>>,
)
    requires
        render_circuit(c, fs, close) == Result::<Seq<Seq<char>>, Seq<char>>::Ok(lines),
    ensures
        item_lines(c.items@).len() == c.items@.len(),
        forall|k: int|
            0 <= k < c.items@.len() ==> #[trigger] item_lines(c.items@)[k] == item_line(
                c.items@[k],
            ),
        ({
            let end_len: int = if close {
                1
            } else {
                0
            };
            &&& lines.len() >= c.items@.len() + end_len
            &&& lines.subrange(
                lines.len() - c.items@.len() - end_len,
                lines.len() - end_len,
            ) == item_lines(c.items@)
        }),
{
    match inc_lines_spec(c, fs) {
        Err(_) => {},
        Ok(incs) => {
            match render_subs(c.subcircuits@, fs) {
                Err(_) => {},
                Ok(blocks) => {
                    let il = item_lines(c.items@);
                    let end_len: int = if close {
                        1
                    } else {
                        0
                    };
                    assert(lines.len() == incs.len() + blocks.len() + il.len() + end_len);
                    assert(lines.subrange(
                        lines.len() - il.len() - end_len,
                        lines.len() - end_len,
                    ) =~= il);
                },
            }
        },
    }
}

/// Law: after `set_value` updates the element at `k` with value `v`, that
/// element's line ends with a space and `v`, and every other element's line
/// is exactly what it was.
pub proof fn lemma_set_value_line(
    olds: Seq<CircuitItem>,
    news: Seq<CircuitItem>,
    r: Seq<char>,
    v: Seq<char>,
    k: int,
)
    requires
        set_value_at(olds, news, r, v, k),
    ensures
        item_lines(news).len() == item_lines(olds).len(),
        forall|j: int|
            0 <= j < olds.len() && j != k ==> #[trigger] item_lines(news)[j] == item_lines(olds)[j],
        ({
            let line = item_line(news[k]);
            &&& line.len() > v.len()
            &&& line.subrange(line.len() - v.len() - 1, line.len() as int) == sp() + v
        }),
{
    let line = item_line(news[k]);
    match news[k] {
        CircuitItem::R(rf, a, b, uv) => {
            assert(line.subrange(line.len() - v.len() - 1, line.len() as int) =~= sp() + v);
        },
        CircuitItem::C(rf, a, b, uv) => {
            assert(line.subrange(line.len() - v.len() - 1, line.len() as int) =~= sp() + v);
        },
        CircuitItem::D(rf, a, b, uv) => {
            assert(line.subrange(line.len() - v.len() - 1, line.len() as int) =~= sp() + v);
        },
        CircuitItem::V(rf, a, b, uv) => {
            assert(line.subrange(line.len() - v.len() - 1, line.len() as int) =~= sp() + v);
        },
        _ => {
            assert(false);
        },
    }
}

/// Law: a resistor whose stored reference already starts with `R` keeps it
/// verbatim at the head of its line; one without gets `R` prepended.
pub proof fn lemma_resistor_prefix(rf: String, a: String, b: String, v: String)
    ensures
        rf@.len() > 0 && rf@[0] == 'R' ==> item_line(CircuitItem::R(rf, a, b, v)).take(
            rf@.len() as int,
        ) == rf@,
        !(rf@.len() > 0 && rf@[0] == 'R') ==> item_line(CircuitItem::R(rf, a, b, v)).take(
            rf@.len() + 1 as int,
        ) == seq!['R'] + rf@,
{
    let line = item_line(CircuitItem::R(rf, a, b, v));
    if rf@.len() > 0 && rf@[0] == 'R' {
        assert(prefixed(rf@, 'R') == rf@);
        assert(line.take(rf@.len() as int) =~= rf@);
    } else {
        assert(prefixed(rf@, 'R') == seq!['R'] + rf@);
        assert(line.take(rf@.len() + 1 as int) =~= seq!['R'] + rf@);
    }
}

/// Law: a transistor's line always starts with `Q` before the stored
/// reference, whatever the reference holds.
pub proof fn lemma_transistor_prefix(rf: String, c: String, bs: String, e: String, v: String)
    ensures
        item_line(CircuitItem::Q(rf, c, bs, e, v)).take(rf@.len() + 1 as int) == seq!['Q'] + rf@,
{
    let line = item_line(CircuitItem::Q(rf, c, bs, e, v));
    assert(line.take(rf@.len() + 1 as int) =~= seq!['Q'] + rf@);
}

/// Law: rendering is a function of the circuit and the snapshot alone, so
/// rendering the same unmodified circuit twice yields identical lines.
pub proof fn lemma_render_deterministic(
    c: Circuit,
    fs: Seq<SearchDir>,
    close: bool,
    r1: Seq<Seq<char>>,
    r2: Seq<Seq<char>>,
)
    requires
        render_circuit(c, fs, close) == Result::<Seq<Seq<char>>, Seq<char>>::Ok(r1),
        render_circuit(c, fs, close) == Result::<Seq<Seq<char>>, Seq<char>>::Ok(r2),
    ensures
        r1 == r2,
{
}

} // verus!
