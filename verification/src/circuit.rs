use crate::error::Error;
use crate::pathmap::{map_set, PathMap};
use crate::scan::{
    defines, first_inc_arg, first_inc_arg_str, model_kw, model_kw_vec, subckt_kw, subckt_kw_vec,
};
use crate::source::{collect_files, files_on, SearchDir, SourceFile};
use crate::text::{contains_sep, has_sep, str_eq};
use vstd::prelude::*;

verus! {

/// One circuit element.  Two-terminal elements carry a reference, two node
/// names and an opaque value; a transistor carries three node names and a
/// model name; a sub-circuit instance carries its node list and the name of
/// the sub-circuit it instantiates.
pub enum CircuitItem {
    /// Resistor: reference, two nodes, value.
    R(String, String, String, String),
    /// Capacitor: reference, two nodes, value.
    C(String, String, String, String),
    /// Diode: reference, two nodes, model name.
    D(String, String, String, String),
    /// Bipolar transistor: reference, collector, base, emitter, model name.
    Q(String, String, String, String, String),
    /// Sub-circuit instance: reference, ordered node list, sub-circuit name.
    X(String, Vec<String>, String),
    /// Voltage source: reference, positive node, negative node, value.
    V(String, String, String, String),
}

/// A locally defined sub-circuit: its name, its interface nodes, and the
/// nested circuit it owns.
pub struct Subcircuit {
    pub name: String,
    pub nodes: Vec<String>,
    pub circuit: Circuit,
}

/// An ordered collection of circuit elements, the sub-circuits defined
/// locally, and the search path used to resolve external definitions.
pub struct Circuit {
    pub name: String,
    pub pathlist: Vec<String>,
    pub items: Vec<CircuitItem>,
    pub subcircuits: Vec<Subcircuit>,
}

/// `set_value` updates this element when its reference equals `r`: it
/// touches resistors, capacitors, diodes and voltage sources, and leaves
/// transistors and sub-circuit instances alone.
pub open spec fn matches_set(it: CircuitItem, r: Seq<char>) -> bool {
    match it {
        CircuitItem::R(rf, _, _, _) => rf@ == r,
        CircuitItem::C(rf, _, _, _) => rf@ == r,
        CircuitItem::D(rf, _, _, _) => rf@ == r,
        CircuitItem::V(rf, _, _, _) => rf@ == r,
        CircuitItem::Q(_, _, _, _, _) => false,
        CircuitItem::X(_, _, _) => false,
    }
}

/// Some element of `items` is updatable under reference `r`.
pub open spec fn set_value_hit(items: Seq<CircuitItem>, r: Seq<char>) -> bool {
    exists|k: int| 0 <= k < items.len() && matches_set(items[k], r)
}

/// `u` is `it` with its value field replaced by `v` and all else kept.
pub open spec fn is_with_value(u: CircuitItem, it: CircuitItem, v: Seq<char>) -> bool {
    match (it, u) {
        (CircuitItem::R(rf, a, b, _), CircuitItem::R(ur, ua, ub, uv)) => ur == rf && ua == a && ub
            == b && uv@ == v,
        (CircuitItem::C(rf, a, b, _), CircuitItem::C(ur, ua, ub, uv)) => ur == rf && ua == a && ub
            == b && uv@ == v,
        (CircuitItem::D(rf, a, b, _), CircuitItem::D(ur, ua, ub, uv)) => ur == rf && ua == a && ub
            == b && uv@ == v,
        (CircuitItem::V(rf, a, b, _), CircuitItem::V(ur, ua, ub, uv)) => ur == rf && ua == a && ub
            == b && uv@ == v,
        _ => false,
    }
}

/// `news` is `olds` with the first element matching reference `r` (standing
/// at index `k`) given the value `v`, and every other element unchanged.
pub open spec fn set_value_at(
    olds: Seq<CircuitItem>,
    news: Seq<CircuitItem>,
    r: Seq<char>,
    v: Seq<char>,
    k: int,
) -> bool {
    &&& 0 <= k < olds.len()
    &&& matches_set(olds[k], r)
    &&& (forall|j: int| 0 <= j < k ==> !matches_set(olds[j], r))
    &&& news.len() == olds.len()
    &&& (forall|j: int| 0 <= j < olds.len() && j != k ==> news[j] == olds[j])
    &&& is_with_value(news[k], olds[k], v)
}

/// A local sub-circuit named `n` exists.
pub open spec fn subs_has(subs: Seq<Subcircuit>, n: Seq<char>) -> bool {
    exists|j: int| 0 <= j < subs.len() && subs[j].name@ == n
}

/// `news` is `olds` with `s` replacing, in place, the first sub-circuit of
/// the same name, standing at index `k`.
pub open spec fn subs_set_at(
    olds: Seq<Subcircuit>,
    news: Seq<Subcircuit>,
    s: Subcircuit,
    k: int,
) -> bool {
    &&& 0 <= k < olds.len()
    &&& olds[k].name@ == s.name@
    &&& (forall|j: int| 0 <= j < k ==> olds[j].name@ != s.name@)
    &&& news == olds.update(k, s)
}

impl Circuit {
    /// A circuit with the given name and search path and nothing in it.
    pub fn new(name: String, pathlist: Vec<String>) -> (r: Circuit)
        ensures
            r.name == name,
            r.pathlist == pathlist,
            r.items@ == Seq::<CircuitItem>::empty(),
            r.subcircuits@ == Seq::<Subcircuit>::empty(),
    {
        Circuit { name, pathlist, items: Vec::new(), subcircuits: Vec::new() }
    }

    /// Appends a resistor.
    pub fn resistor(&mut self, reference: String, n0: String, n1: String, value: String)
        ensures
            final(self).items@ == old(self).items@.push(
                CircuitItem::R(reference, n0, n1, value),
            ),
            final(self).name == old(self).name,
            final(self).pathlist == old(self).pathlist,
            final(self).subcircuits == old(self).subcircuits,
    {
        self.items.push(CircuitItem::R(reference, n0, n1, value));
    }

    /// Appends a capacitor.
    pub fn capacitor(&mut self, reference: String, n0: String, n1: String, value: String)
        ensures
            final(self).items@ == old(self).items@.push(
                CircuitItem::C(reference, n0, n1, value),
            ),
            final(self).name == old(self).name,
            final(self).pathlist == old(self).pathlist,
            final(self).subcircuits == old(self).subcircuits,
    {
        self.items.push(CircuitItem::C(reference, n0, n1, value));
    }

    /// Appends a diode.
    pub fn diode(&mut self, reference: String, n0: String, n1: String, value: String)
        ensures
            final(self).items@ == old(self).items@.push(
                CircuitItem::D(reference, n0, n1, value),
            ),
            final(self).name == old(self).name,
            final(self).pathlist == old(self).pathlist,
            final(self).subcircuits == old(self).subcircuits,
    {
        self.items.push(CircuitItem::D(reference, n0, n1, value));
    }

    /// Appends a bipolar transistor.
    pub fn bjt(&mut self, reference: String, n0: String, n1: String, n2: String, value: String)
        ensures
            final(self).items@ == old(self).items@.push(
                CircuitItem::Q(reference, n0, n1, n2, value),
            ),
            final(self).name == old(self).name,
            final(self).pathlist == old(self).pathlist,
            final(self).subcircuits == old(self).subcircuits,
    {
        self.items.push(CircuitItem::Q(reference, n0, n1, n2, value));
    }

    /// Appends a sub-circuit instance.  Always succeeds.
    pub fn circuit(&mut self, reference: String, n: Vec<String>, value: String) -> (r: Result<
        (),
        Error,
    >)
        ensures
            r is Ok,
            final(self).items@ == old(self).items@.push(CircuitItem::X(reference, n, value)),
            final(self).name == old(self).name,
            final(self).pathlist == old(self).pathlist,
            final(self).subcircuits == old(self).subcircuits,
    {
        self.items.push(CircuitItem::X(reference, n, value));
        Ok(())
    }

    /// Defines (or silently redefines: last write wins) a local sub-circuit.
    /// Always succeeds.
    pub fn subcircuit(&mut self, name: String, n: Vec<String>, circuit: Circuit) -> (r: Result<
        (),
        Error,
    >)
        ensures
            r is Ok,
            final(self).name == old(self).name,
            final(self).pathlist == old(self).pathlist,
            final(self).items == old(self).items,
            ({
                let s = Subcircuit { name: name, nodes: n, circuit: circuit };
                if subs_has(old(self).subcircuits@, name@) {
                    exists|k: int| subs_set_at(old(self).subcircuits@, final(self).subcircuits@, s, k)
                } else {
                    final(self).subcircuits@ == old(self).subcircuits@.push(s)
                }
            }),
    {
        let ghost olds = self.subcircuits@;
        let ghost s = Subcircuit { name: name, nodes: n, circuit: circuit };
        let n_subs = self.subcircuits.len();
        let mut i: usize = 0;
        while i < n_subs
            invariant
                n_subs == self.subcircuits@.len(),
                0 <= i <= n_subs,
                *self == *old(self),
                olds == old(self).subcircuits@,
                s == (Subcircuit { name: name, nodes: n, circuit: circuit }),
                forall|j: int| 0 <= j < i ==> self.subcircuits@[j].name@ != name@,
            decreases n_subs - i,
        {
            if str_eq(self.subcircuits[i].name.as_str(), name.as_str()) {
                self.subcircuits.set(i, Subcircuit { name, nodes: n, circuit });
                proof {
                    assert(subs_has(olds, s.name@));
                    assert(subs_set_at(olds, self.subcircuits@, s, i as int));
                }
                return Ok(());
            }
            i += 1;
        }
        assert(!subs_has(olds, name@));
        self.subcircuits.push(Subcircuit { name, nodes: n, circuit });
        Ok(())
    }

    /// Appends a voltage source.
    pub fn voltage(&mut self, reference: String, n1: String, n2: String, value: String)
        ensures
            final(self).items@ == old(self).items@.push(
                CircuitItem::V(reference, n1, n2, value),
            ),
            final(self).name == old(self).name,
            final(self).pathlist == old(self).pathlist,
            final(self).subcircuits == old(self).subcircuits,
    {
        self.items.push(CircuitItem::V(reference, n1, n2, value));
    }

    /// Gives the first resistor, capacitor, diode or voltage source whose
    /// reference equals `reference` the value `value`.  Transistors and
    /// sub-circuit instances are never updated.  Fails with
    /// `UnknownElement` exactly when no element matches, and then changes
    /// nothing.
    pub fn set_value(&mut self, reference: &str, value: &str) -> (r: Result<(), Error>)
        ensures
            final(self).name == old(self).name,
            final(self).pathlist == old(self).pathlist,
            final(self).subcircuits == old(self).subcircuits,
            r is Ok <==> set_value_hit(old(self).items@, reference@),
            match r {
                Ok(_) => exists|k: int|
                    set_value_at(old(self).items@, final(self).items@, reference@, value@, k),
                Err(e) => {
                    &&& final(self).items == old(self).items
                    &&& e matches Error::UnknownElement(n) && n@ == reference@
                },
            },
    {
        let n_items = self.items.len();
        let mut i: usize = 0;
        while i < n_items
            invariant
                n_items == self.items@.len(),
                0 <= i <= n_items,
                *self == *old(self),
                forall|j: int| 0 <= j < i ==> !matches_set(self.items@[j], reference@),
            decreases n_items - i,
        {
            match updated_item(&self.items[i], reference, value) {
                Some(u) => {
                    self.items.set(i, u);
                    proof {
                        assert(set_value_at(
                            old(self).items@,
                            self.items@,
                            reference@,
                            value@,
                            i as int,
                        ));
                    }
                    return Ok(());
                },
                None => {},
            }
            i += 1;
        }
        assert(!set_value_hit(self.items@, reference@));
        Err(Error::UnknownElement(reference.to_owned()))
    }
}

/// `it` with its value replaced by `value`, when its reference equals
/// `reference` and its kind is updatable.
fn updated_item(it: &CircuitItem, reference: &str, value: &str) -> (r: Option<CircuitItem>)
    ensures
        match r {
            Some(u) => matches_set(*it, reference@) && is_with_value(u, *it, value@),
            None => !matches_set(*it, reference@),
        },
{
    match it {
        CircuitItem::R(rf, a, b, _) => {
            if str_eq(rf.as_str(), reference) {
                Some(CircuitItem::R(rf.clone(), a.clone(), b.clone(), value.to_owned()))
            } else {
                None
            }
        },
        CircuitItem::C(rf, a, b, _) => {
            if str_eq(rf.as_str(), reference) {
                Some(CircuitItem::C(rf.clone(), a.clone(), b.clone(), value.to_owned()))
            } else {
                None
            }
        },
        CircuitItem::D(rf, a, b, _) => {
            if str_eq(rf.as_str(), reference) {
                Some(CircuitItem::D(rf.clone(), a.clone(), b.clone(), value.to_owned()))
            } else {
                None
            }
        },
        CircuitItem::V(rf, a, b, _) => {
            if str_eq(rf.as_str(), reference) {
                Some(CircuitItem::V(rf.clone(), a.clone(), b.clone(), value.to_owned()))
            } else {
                None
            }
        },
        CircuitItem::Q(_, _, _, _, _) => None,
        CircuitItem::X(_, _, _) => None,
    }
}

// --- resolution -------------------------------------------------------------

/// The first file of `files` whose content defines `key` under keyword `kw`.
pub open spec fn first_defining(
    files: Seq<SourceFile>,
    kw: Seq<char>,
    key: Seq<char>,
) -> Option<SourceFile>
    decreases files.len(),
{
    if files.len() == 0 {
        None
    } else if defines(files[0].content@, kw, key) {
        Some(files[0])
    } else {
        first_defining(files.drop_first(), kw, key)
    }
}

/// The file that defines `key`: the first file on the search path with a
/// matching sub-circuit definition, or, when there is none, the first with
/// a matching model definition.
pub open spec fn found_file(
    pathlist: Seq<String>,
    fs: Seq<SearchDir>,
    key: Seq<char>,
) -> Option<SourceFile> {
    let files = files_on(pathlist, fs);
    match first_defining(files, subckt_kw(), key) {
        Some(f) => Some(f),
        None => first_defining(files, model_kw(), key),
    }
}

/// Where an inclusion argument points: taken verbatim when it carries a
/// path separator, otherwise anchored in the defining file's directory.
pub open spec fn inc_target(arg: Seq<char>, dir: Seq<char>) -> Seq<char> {
    if has_sep(arg) {
        arg
    } else {
        dir + seq!['/'] + arg
    }
}

/// The mapping a successful resolution of `key` at file `f` produces:
/// `key` bound to the defining file, plus, when the file's first inclusion
/// directive names a further file, that name bound to its target.
pub open spec fn resolve_entry_list(key: Seq<char>, f: SourceFile) -> Seq<(Seq<char>, Seq<char>)> {
    let base = seq![(key, f.path@)];
    match first_inc_arg(f.content@) {
        None => base,
        Some(arg) => map_set(base, arg, inc_target(arg, f.dir@)),
    }
}

/// What resolving `key` over `pathlist` in the snapshot `fs` yields:
/// the mapping, or nothing when no file defines `key`.
pub open spec fn resolve_spec(
    pathlist: Seq<String>,
    fs: Seq<SearchDir>,
    key: Seq<char>,
) -> Option<Seq<(Seq<char>, Seq<char>)>> {
    match found_file(pathlist, fs, key) {
        None => None,
        Some(f) => Some(resolve_entry_list(key, f)),
    }
}

/// The first file of `files` defining `key` under `kw`, by scanning in order.
fn find_first_defining<'a>(files: &'a Vec<SourceFile>, kw: &Vec<char>, key: &str) -> (r: Option<
    &'a SourceFile,
>)
    ensures
        match first_defining(files@, kw@, key@) {
            Some(f) => r matches Some(g) && *g == f,
            None => r is None,
        },
{
    let n = files.len();
    let mut i: usize = 0;
    proof {
        assert(files@.skip(0) =~= files@);
    }
    while i < n
        invariant
            n == files@.len(),
            0 <= i <= n,
            first_defining(files@, kw@, key@) == first_defining(files@.skip(i as int), kw@, key@),
        decreases n - i,
    {
        proof {
            assert(files@.skip(i as int)[0] == files@[i as int]);
            assert(files@.skip(i as int).drop_first() =~= files@.skip(i + 1 as int));
        }
        if crate::scan::content_defines(files[i].content.as_str(), kw, key) {
            return Some(&files[i]);
        }
        i += 1;
    }
    None
}

/// `dir`, a separator, and `name`.
fn sep_join(dir: &String, name: &str) -> (r: String)
    ensures
        r@ == dir@ + seq!['/'] + name@,
{
    let mut s = dir.clone();
    s.append("/");
    s.append(name);
    proof {
        reveal_strlit("/");
        assert("/"@ =~= seq!['/']);
        assert(s@ =~= dir@ + seq!['/'] + name@);
    }
    s
}

impl Circuit {
    /// Locates the file on the search path that defines the model or
    /// sub-circuit named `key`, plus the file its first inclusion directive
    /// names, if any.  Fails with `ModelNotFound(key)` exactly when no file
    /// on the search path defines `key`.
    pub fn get_includes(&self, key: String, fs: &Vec<SearchDir>) -> (r: Result<PathMap, Error>)
        ensures
            match resolve_spec(self.pathlist@, fs@, key@) {
                Some(m) => r matches Ok(pm) && pm@ == m,
                None => r matches Err(e) && e matches Error::ModelNotFound(n) && n@ == key@,
            },
    {
        let files = collect_files(&self.pathlist, fs);
        let skw = subckt_kw_vec();
        let mkw = model_kw_vec();
        let mut found = find_first_defining(&files, &skw, key.as_str());
        if found.is_none() {
            found = find_first_defining(&files, &mkw, key.as_str());
        }
        match found {
            None => Err(Error::ModelNotFound(key)),
            Some(f) => {
                let ghost keyv = key@;
                let mut pm = PathMap::new();
                let arg_opt = first_inc_arg_str(f.content.as_str());
                pm.set(key, f.path.clone());
                proof {
                    assert(pm@ =~= seq![(keyv, f.path@)]);
                }
                match arg_opt {
                    None => {
                        assert(pm@ == resolve_entry_list(keyv, *f));
                    },
                    Some(arg) => {
                        let target = if contains_sep(arg.as_str()) {
                            arg.clone()
                        } else {
                            sep_join(&f.dir, arg.as_str())
                        };
                        pm.set(arg, target);
                        assert(pm@ == resolve_entry_list(keyv, *f));
                    },
                }
                Ok(pm)
            },
        }
    }
}

} // verus!
