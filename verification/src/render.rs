use crate::circuit::{resolve_spec, subs_has, Circuit, CircuitItem, Subcircuit};
use crate::error::Error;
use crate::pathmap::{map_add_keep, map_has, PathMap};
use crate::source::SearchDir;
use crate::text::{push_sp, sp};
use vstd::prelude::*;

verus! {

broadcast use vstd::seq_lib::group_seq_lib_default;

// --- element lines ----------------------------------------------------------
// Each element becomes one line.  Resistors, capacitors and diodes get their
// canonical prefix letter only when the stored reference does not already
// start with it; transistors, sub-circuit instances and voltage sources are
// prefixed unconditionally.  This asymmetry follows the netlist conventions
// this library implements and is kept deliberately.

/// `r` when it already starts with `p`, otherwise `p` prepended to `r`.
pub open spec fn prefixed(r: Seq<char>, p: char) -> Seq<char> {
    if r.len() > 0 && r[0] == p {
        r
    } else {
        seq![p] + r
    }
}

/// The node list of a sub-circuit instance: every node followed by a space.
pub open spec fn nodes_sp(ns: Seq<String>) -> Seq<char>
    decreases ns.len(),
{
    if ns.len() == 0 {
        Seq::empty()
    } else {
        nodes_sp(ns.drop_last()) + ns.last()@ + sp()
    }
}

/// The netlist line of one element.
pub open spec fn item_line(it: CircuitItem) -> Seq<char> {
    match it {
        CircuitItem::R(rf, a, b, v) => prefixed(rf@, 'R') + sp() + a@ + sp() + b@ + sp() + v@,
        CircuitItem::C(rf, a, b, v) => prefixed(rf@, 'C') + sp() + a@ + sp() + b@ + sp() + v@,
        CircuitItem::D(rf, a, b, v) => prefixed(rf@, 'D') + sp() + a@ + sp() + b@ + sp() + v@,
        CircuitItem::Q(rf, c, bs, e, v) => seq!['Q'] + rf@ + sp() + c@ + sp() + bs@ + sp() + e@
            + sp() + v@,
        CircuitItem::X(rf, ns, v) => seq!['X'] + rf@ + sp() + nodes_sp(ns@) + v@,
        CircuitItem::V(rf, a, b, v) => seq!['V'] + rf@ + sp() + a@ + sp() + b@ + sp() + v@,
    }
}

/// The lines of a sequence of elements, one each, in order.
pub open spec fn item_lines(items: Seq<CircuitItem>) -> Seq<Seq<char>> {
    items.map_values(|it: CircuitItem| item_line(it))
}

/// The interface nodes of a sub-circuit header, space-separated.
pub open spec fn join_sp(ns: Seq<String>) -> Seq<char>
    decreases ns.len(),
{
    if ns.len() == 0 {
        Seq::empty()
    } else if ns.len() == 1 {
        ns[0]@
    } else {
        join_sp(ns.drop_last()) + sp() + ns.last()@
    }
}

/// The header line of a sub-circuit block.
pub open spec fn subckt_header(s: Subcircuit) -> Seq<char> {
    ".subckt "@ + s.name@ + sp() + join_sp(s.nodes@)
}

/// The line closing a sub-circuit block.
pub open spec fn ends_line() -> Seq<char> {
    ".ends"@
}

/// The line optionally closing a whole netlist.
pub open spec fn end_line() -> Seq<char> {
    ".end"@
}

/// The line bringing one resolved file into the netlist.
pub open spec fn inc_line(target: Seq<char>) -> Seq<char> {
    ".include "@ + target + "\n"@
}

// --- the include set --------------------------------------------------------

/// The external name an element references: a sub-circuit instance names a
/// sub-circuit, a transistor names a model; nothing else resolves.
pub open spec fn ext_name(it: CircuitItem) -> Option<Seq<char>> {
    match it {
        CircuitItem::X(_, _, v) => Some(v@),
        CircuitItem::Q(_, _, _, _, v) => Some(v@),
        _ => None,
    }
}

/// `acc` extended with the entries of `es` in order, keeping the first-seen
/// binding of every name.
pub open spec fn merge_keep(
    acc: Seq<(Seq<char>, Seq<char>)>,
    es: Seq<(Seq<char>, Seq<char>)>,
) -> Seq<(Seq<char>, Seq<char>)>
    decreases es.len(),
{
    if es.len() == 0 {
        acc
    } else {
        merge_keep(map_add_keep(acc, es[0].0, es[0].1), es.drop_first())
    }
}

/// The include mapping accumulated over `items`, starting from `acc`: each
/// sub-circuit instance or transistor whose referenced name is neither
/// accumulated already nor defined locally is resolved and merged
/// first-seen-wins; an unresolvable name is the error.
pub open spec fn inc_map_spec(
    items: Seq<CircuitItem>,
    subs: Seq<Subcircuit>,
    pathlist: Seq<String>,
    fs: Seq<SearchDir>,
    acc: Seq<(Seq<char>, Seq<char>)>,
) -> Result<Seq<(Seq<char>, Seq<char>)>, Seq<char>>
    decreases items.len(),
{
    if items.len() == 0 {
        Ok(acc)
    } else {
        match ext_name(items[0]) {
            None => inc_map_spec(items.drop_first(), subs, pathlist, fs, acc),
            Some(nm) => {
                if map_has(acc, nm) || subs_has(subs, nm) {
                    inc_map_spec(items.drop_first(), subs, pathlist, fs, acc)
                } else {
                    match resolve_spec(pathlist, fs, nm) {
                        None => Err(nm),
                        Some(es) => inc_map_spec(
                            items.drop_first(),
                            subs,
                            pathlist,
                            fs,
                            merge_keep(acc, es),
                        ),
                    }
                }
            },
        }
    }
}

/// The include lines of a circuit, one per entry of its include mapping, in
/// the mapping's insertion order (deterministic for a given snapshot).
pub open spec fn inc_lines_spec(c: Circuit, fs: Seq<SearchDir>) -> Result<
    Seq<Seq<char>>,
    Seq<char>,
> {
    match inc_map_spec(c.items@, c.subcircuits@, c.pathlist@, fs, Seq::empty()) {
        Err(n) => Err(n),
        Ok(m) => Ok(m.map_values(|p: (Seq<char>, Seq<char>)| inc_line(p.1))),
    }
}

// --- whole-netlist rendering -------------------------------------------------

/// The lines of the rendered circuit: its include lines, its sub-circuit
/// blocks in definition order, one line per element in insertion order,
/// and, when `close` holds, a closing line.  The error is the first name
/// that resolution cannot find.
pub open spec fn render_circuit(c: Circuit, fs: Seq<SearchDir>, close: bool) -> Result<
    Seq<Seq<char>>,
    Seq<char>,
>
    decreases c, 1int,
{
    match inc_lines_spec(c, fs) {
        Err(n) => Err(n),
        Ok(incs) => match render_subs(c.subcircuits@, fs) {
            Err(n) => Err(n),
            Ok(blocks) => Ok(
                incs + blocks + item_lines(c.items@) + (if close {
                    seq![end_line()]
                } else {
                    Seq::<Seq<char>>::empty()
                }),
            ),
        },
    }
}

/// The block lines of a list of sub-circuits: for each, its header, the
/// nested circuit rendered without a closing line, and the block footer.
pub open spec fn render_subs(subs: Seq<Subcircuit>, fs: Seq<SearchDir>) -> Result<
    Seq<Seq<char>>,
    Seq<char>,
>
    decreases subs, 0int,
{
    if subs.len() == 0 {
        Ok(Seq::empty())
    } else {
        match render_circuit(subs[0].circuit, fs, false) {
            Err(n) => Err(n),
            Ok(body) => match render_subs(subs.drop_first(), fs) {
                Err(n) => Err(n),
                Ok(rest) => Ok(
                    seq![subckt_header(subs[0])] + body + seq![ends_line()] + rest,
                ),
            },
        }
    }
}

// --- executable side ---------------------------------------------------------

/// Whether `s` starts with the character `c`.
fn starts_with_char(s: &String, c: char) -> (r: bool)
    ensures
        r == (s@.len() > 0 && s@[0] == c),
{
    let st = s.as_str();
    let n = st.unicode_len();
    if n == 0 {
        false
    } else {
        st.get_char(0) == c
    }
}

/// The reference with its canonical prefix, added only when missing.
fn prefixed_str(rf: &String, p: char, ps: &str) -> (r: String)
    requires
        ps@ == seq![p],
    ensures
        r@ == prefixed(rf@, p),
{
    if starts_with_char(rf, p) {
        rf.clone()
    } else {
        let mut t = ps.to_owned();
        t.append(rf.as_str());
        proof {
            assert(t@ =~= seq![p] + rf@);
        }
        t
    }
}

/// `head`, then a space and `a`, a space and `b`, a space and `v`.
fn tail3(head: String, a: &String, b: &String, v: &String) -> (r: String)
    ensures
        r@ == head@ + sp() + a@ + sp() + b@ + sp() + v@,
{
    let mut s = head;
    push_sp(&mut s);
    s.append(a.as_str());
    push_sp(&mut s);
    s.append(b.as_str());
    push_sp(&mut s);
    s.append(v.as_str());
    s
}

/// The netlist line of one element, the executable side of `item_line`.
pub fn item_line_str(it: &CircuitItem) -> (r: String)
    ensures
        r@ == item_line(*it),
{
    match it {
        CircuitItem::R(rf, a, b, v) => {
            proof {
                reveal_strlit("R");
                assert("R"@ =~= seq!['R']);
            }
            tail3(prefixed_str(rf, 'R', "R"), a, b, v)
        },
        CircuitItem::C(rf, a, b, v) => {
            proof {
                reveal_strlit("C");
                assert("C"@ =~= seq!['C']);
            }
            tail3(prefixed_str(rf, 'C', "C"), a, b, v)
        },
        CircuitItem::D(rf, a, b, v) => {
            proof {
                reveal_strlit("D");
                assert("D"@ =~= seq!['D']);
            }
            tail3(prefixed_str(rf, 'D', "D"), a, b, v)
        },
        CircuitItem::V(rf, a, b, v) => {
            proof {
                reveal_strlit("V");
                assert("V"@ =~= seq!['V']);
            }
            let mut s = "V".to_owned();
            s.append(rf.as_str());
            let r = tail3(s, a, b, v);
            proof {
                assert(r@ =~= seq!['V'] + rf@ + sp() + a@ + sp() + b@ + sp() + v@);
            }
            r
        },
        CircuitItem::Q(rf, c, bs, e, v) => {
            proof {
                reveal_strlit("Q");
                assert("Q"@ =~= seq!['Q']);
            }
            let mut s = "Q".to_owned();
            s.append(rf.as_str());
            push_sp(&mut s);
            s.append(c.as_str());
            let r = tail3(s, bs, e, v);
            proof {
                assert(r@ =~= seq!['Q'] + rf@ + sp() + c@ + sp() + bs@ + sp() + e@ + sp() + v@);
            }
            r
        },
        CircuitItem::X(rf, ns, v) => {
            proof {
                reveal_strlit("X");
                assert("X"@ =~= seq!['X']);
            }
            let mut s = "X".to_owned();
            s.append(rf.as_str());
            push_sp(&mut s);
            let ghost head = seq!['X'] + rf@ + sp();
            assert(s@ =~= head + nodes_sp(ns@.take(0)));
            let n_nodes = ns.len();
            let mut j: usize = 0;
            while j < n_nodes
                invariant
                    n_nodes == ns@.len(),
                    0 <= j <= n_nodes,
                    s@ == head + nodes_sp(ns@.take(j as int)),
                decreases n_nodes - j,
            {
                s.append(ns[j].as_str());
                push_sp(&mut s);
                proof {
                    assert(ns@.take(j + 1 as int).drop_last() =~= ns@.take(j as int));
                    assert(ns@.take(j + 1 as int).last() == ns@[j as int]);
                    assert(s@ =~= head + nodes_sp(ns@.take(j + 1 as int)));
                }
                j += 1;
            }
            proof {
                assert(ns@.take(n_nodes as int) =~= ns@);
            }
            s.append(v.as_str());
            proof {
                assert(s@ =~= seq!['X'] + rf@ + sp() + nodes_sp(ns@) + v@);
            }
            s
        },
    }
}

/// The interface nodes space-separated, the executable side of `join_sp`.
fn join_sp_str(ns: &Vec<String>) -> (r: String)
    ensures
        r@ == join_sp(ns@),
{
    let n = ns.len();
    if n == 0 {
        let r = String::new();
        proof {
            assert(r@ =~= join_sp(ns@));
        }
        return r;
    }
    let mut s = ns[0].clone();
    proof {
        assert(ns@.take(1)[0] == ns@[0]);
        assert(s@ =~= join_sp(ns@.take(1)));
    }
    let mut j: usize = 1;
    while j < n
        invariant
            n == ns@.len(),
            1 <= j <= n,
            s@ == join_sp(ns@.take(j as int)),
        decreases n - j,
    {
        push_sp(&mut s);
        s.append(ns[j].as_str());
        proof {
            assert(ns@.take(j + 1 as int).drop_last() =~= ns@.take(j as int));
            assert(ns@.take(j + 1 as int).last() == ns@[j as int]);
            assert(s@ =~= join_sp(ns@.take(j + 1 as int)));
        }
        j += 1;
    }
    proof {
        assert(ns@.take(n as int) =~= ns@);
    }
    s
}

/// The header line of a sub-circuit block.
fn subckt_header_str(s: &Subcircuit) -> (r: String)
    ensures
        r@ == subckt_header(*s),
{
    let mut h = ".subckt ".to_owned();
    h.append(s.name.as_str());
    push_sp(&mut h);
    let nodes = join_sp_str(&s.nodes);
    h.append(nodes.as_str());
    proof {
        assert(h@ =~= subckt_header(*s));
    }
    h
}

/// The external name an element references, the executable side of
/// `ext_name`.
fn ext_name_of(it: &CircuitItem) -> (r: Option<&String>)
    ensures
        match r {
            Some(v) => ext_name(*it) == Some(v@),
            None => ext_name(*it) is None,
        },
{
    match it {
        CircuitItem::X(_, _, v) => Some(v),
        CircuitItem::Q(_, _, _, _, v) => Some(v),
        _ => None,
    }
}

/// Merges `other` into `pm`, keeping `pm`'s first-seen binding of every name.
fn merge_into(pm: &mut PathMap, other: &PathMap)
    ensures
        final(pm)@ == merge_keep(old(pm)@, other@),
{
    let n = other.entries.len();
    let mut j: usize = 0;
    proof {
        assert(other@.skip(0) =~= other@);
    }
    while j < n
        invariant
            n == other.entries@.len(),
            n == other@.len(),
            0 <= j <= n,
            merge_keep(old(pm)@, other@) == merge_keep(pm@, other@.skip(j as int)),
        decreases n - j,
    {
        proof {
            assert(other@.skip(j as int)[0] == other@[j as int]);
            assert(other@.skip(j as int).drop_first() =~= other@.skip(j + 1 as int));
        }
        let k = other.entries[j].0.clone();
        let v = other.entries[j].1.clone();
        pm.add_keep(k, v);
        j += 1;
    }
}

impl Circuit {
    /// Whether a local sub-circuit named `n` exists.
    pub fn has_subcircuit(&self, n: &str) -> (r: bool)
        ensures
            r == subs_has(self.subcircuits@, n@),
    {
        let m = self.subcircuits.len();
        let mut j: usize = 0;
        while j < m
            invariant
                m == self.subcircuits@.len(),
                0 <= j <= m,
                forall|k: int| 0 <= k < j ==> self.subcircuits@[k].name@ != n@,
            decreases m - j,
        {
            if crate::text::str_eq(self.subcircuits[j].name.as_str(), n) {
                assert(subs_has(self.subcircuits@, n@));
                return true;
            }
            j += 1;
        }
        false
    }

    /// The `.include` lines of this circuit: every external name referenced
    /// by a sub-circuit instance or transistor is resolved over the search
    /// path, first-seen bindings win, and each resolved file yields one
    /// line.  Fails with `ModelNotFound` on the first name no file defines.
    pub fn includes(&self, fs: &Vec<SearchDir>) -> (r: Result<Vec<String>, Error>)
        ensures
            match inc_lines_spec(*self, fs@) {
                Ok(lines) => r matches Ok(v) && v.deep_view() == lines,
                Err(n) => r matches Err(e) && e matches Error::ModelNotFound(m) && m@ == n,
            },
    {
        let mut pm = PathMap::new();
        let n_items = self.items.len();
        let mut i: usize = 0;
        proof {
            assert(self.items@.skip(0) =~= self.items@);
        }
        while i < n_items
            invariant
                n_items == self.items@.len(),
                0 <= i <= n_items,
                inc_map_spec(
                    self.items@,
                    self.subcircuits@,
                    self.pathlist@,
                    fs@,
                    Seq::empty(),
                ) == inc_map_spec(
                    self.items@.skip(i as int),
                    self.subcircuits@,
                    self.pathlist@,
                    fs@,
                    pm@,
                ),
            decreases n_items - i,
        {
            proof {
                assert(self.items@.skip(i as int)[0] == self.items@[i as int]);
                assert(self.items@.skip(i as int).drop_first() =~= self.items@.skip(i + 1 as int));
            }
            match ext_name_of(&self.items[i]) {
                None => {},
                Some(v) => {
                    if !pm.contains_key(v.as_str()) && !self.has_subcircuit(v.as_str()) {
                        match self.get_includes(v.clone(), fs) {
                            Err(e) => {
                                return Err(e);
                            },
                            Ok(sub_pm) => {
                                merge_into(&mut pm, &sub_pm);
                            },
                        }
                    }
                },
            }
            i += 1;
        }
        let n_e = pm.entries.len();
        let mut out: Vec<String> = Vec::new();
        let mut j: usize = 0;
        while j < n_e
            invariant
                n_e == pm.entries@.len(),
                n_e == pm@.len(),
                0 <= j <= n_e,
                out@.len() == j,
                forall|k: int| 0 <= k < j ==> out@[k]@ == inc_line(pm@[k].1),
            decreases n_e - j,
        {
            let mut line = ".include ".to_owned();
            line.append(pm.entries[j].1.as_str());
            line.append("\n");
            assert(line@ == inc_line(pm@[j as int].1));
            out.push(line);
            j += 1;
        }
        proof {
            assert(out.deep_view() =~= pm@.map_values(|p: (Seq<char>, Seq<char>)| inc_line(p.1)));
        }
        Ok(out)
    }

    /// Renders the circuit: its include lines, its sub-circuit blocks, one
    /// line per element in insertion order, and, when `close` holds, a
    /// final `.end` line.  Rendering the same circuit over the same
    /// snapshot twice yields the same lines.  Fails with `ModelNotFound` on
    /// the first external name no file on the search path defines.
    pub fn to_str(&self, close: bool, fs: &Vec<SearchDir>) -> (r: Result<Vec<String>, Error>)
        ensures
            match render_circuit(*self, fs@, close) {
                Ok(lines) => r matches Ok(v) && v.deep_view() == lines,
                Err(n) => r matches Err(e) && e matches Error::ModelNotFound(m) && m@ == n,
            },
        decreases *self,
    {
        let mut res: Vec<String> = match self.includes(fs) {
            Ok(v) => v,
            Err(e) => {
                return Err(e);
            },
        };
        let ghost incs0 = res.deep_view();
        let n_subs = self.subcircuits.len();
        let mut si: usize = 0;
        proof {
            assert(self.subcircuits@.skip(0) =~= self.subcircuits@);
            assert(res.deep_view().skip(incs0.len() as int) =~= Seq::<Seq<char>>::empty());
        }
        while si < n_subs
            invariant
                n_subs == self.subcircuits@.len(),
                0 <= si <= n_subs,
                inc_lines_spec(*self, fs@) == Result::<Seq<Seq<char>>, Seq<char>>::Ok(incs0),
                incs0.len() <= res.deep_view().len(),
                res.deep_view().take(incs0.len() as int) == incs0,
                (match render_subs(self.subcircuits@.skip(si as int), fs@) {
                    Ok(rest) => render_subs(self.subcircuits@, fs@)
                        == Result::<Seq<Seq<char>>, Seq<char>>::Ok(
                        res.deep_view().skip(incs0.len() as int) + rest,
                    ),
                    Err(n) => render_subs(self.subcircuits@, fs@) == Result::<
                        Seq<Seq<char>>,
                        Seq<char>,
                    >::Err(n),
                }),
            decreases n_subs - si,
        {
            proof {
                assert(self.subcircuits@.skip(si as int)[0] == self.subcircuits@[si as int]);
                assert(self.subcircuits@.skip(si as int).drop_first() =~= self.subcircuits@.skip(
                    si + 1 as int,
                ));
            }
            let sub = &self.subcircuits[si];
            let hdr = subckt_header_str(sub);
            match sub.circuit.to_str(false, fs) {
                Err(e) => {
                    return Err(e);
                },
                Ok(mut body) => {
                    let ghost old_dv = res.deep_view();
                    let ghost body_dv = body.deep_view();
                    res.push(hdr);
                    res.append(&mut body);
                    res.push(".ends".to_owned());
                    proof {
                        assert(".ends"@ == ends_line());
                        assert(res.deep_view() =~= old_dv + seq![subckt_header(
                            self.subcircuits@[si as int],
                        )] + body_dv + seq![ends_line()]);
                        assert(res.deep_view().skip(incs0.len() as int) =~= old_dv.skip(
                            incs0.len() as int,
                        ) + (seq![subckt_header(self.subcircuits@[si as int])] + body_dv + seq![
                            ends_line(),
                        ]));
                        assert(res.deep_view().take(incs0.len() as int) =~= incs0);
                        match render_subs(self.subcircuits@.skip(si + 1 as int), fs@) {
                            Ok(rest2) => {
                                assert(render_subs(self.subcircuits@.skip(si as int), fs@)
                                    == Result::<Seq<Seq<char>>, Seq<char>>::Ok(
                                    seq![subckt_header(self.subcircuits@[si as int])] + body_dv
                                        + seq![ends_line()] + rest2,
                                ));
                                assert(old_dv.skip(incs0.len() as int) + (seq![subckt_header(
                                    self.subcircuits@[si as int],
                                )] + body_dv + seq![ends_line()] + rest2) =~= res.deep_view().skip(
                                    incs0.len() as int,
                                ) + rest2);
                            },
                            Err(_) => {},
                        }
                    }
                },
            }
            si += 1;
        }
        let ghost blocks = res.deep_view().skip(incs0.len() as int);
        proof {
            assert(render_subs(self.subcircuits@.skip(n_subs as int), fs@) == Result::<
                Seq<Seq<char>>,
                Seq<char>,
            >::Ok(Seq::<Seq<char>>::empty()));
            assert(blocks + Seq::<Seq<char>>::empty() =~= blocks);
            assert(render_subs(self.subcircuits@, fs@) == Result::<Seq<Seq<char>>, Seq<char>>::Ok(
                blocks,
            ));
            assert(res.deep_view() =~= incs0 + blocks + item_lines(self.items@.take(0)));
        }
        let n_items = self.items.len();
        let mut ii: usize = 0;
        while ii < n_items
            invariant
                n_items == self.items@.len(),
                0 <= ii <= n_items,
                res.deep_view() == incs0 + blocks + item_lines(self.items@.take(ii as int)),
            decreases n_items - ii,
        {
            let line = item_line_str(&self.items[ii]);
            let ghost old_dv = res.deep_view();
            res.push(line);
            proof {
                assert(item_lines(self.items@.take(ii + 1 as int)) =~= item_lines(
                    self.items@.take(ii as int),
                ).push(item_line(self.items@[ii as int])));
                assert(res.deep_view() =~= old_dv.push(item_line(self.items@[ii as int])));
                assert(res.deep_view() =~= incs0 + blocks + item_lines(
                    self.items@.take(ii + 1 as int),
                ));
            }
            ii += 1;
        }
        proof {
            assert(self.items@.take(n_items as int) =~= self.items@);
        }
        if close {
            res.push(".end".to_owned());
            proof {
                assert(".end"@ == end_line());
                assert(res.deep_view() =~= incs0 + blocks + item_lines(self.items@) + seq![
                    end_line(),
                ]);
            }
        } else {
            proof {
                assert(res.deep_view() =~= incs0 + blocks + item_lines(self.items@)
                    + Seq::<Seq<char>>::empty());
            }
        }
        Ok(res)
    }
}

} // verus!
