//! The macro of the first generation: `system NAME;` declarations, then
//! peripherals in the register description language, turned into the code
//! of each peripheral and the items of each system.

use vstd::prelude::*;
use crate::token::{TokenTree, Punct};
use crate::reader::{Reader, spec_read_ident_match, spec_read_ident, spec_read_token, lemma_skip_comments_ge};
use crate::parser::{parse_peripheral, spec_parse_peripheral, peripheral_stop};
use crate::ast::{RegListView, clone_enum};
use crate::common::{insert_all, lemma_insert_all_push};
use crate::omap::OffsetMap;
use crate::foo::ast::{FieldAst, RegisterAst, RegisterView, PeripheralAst, PeripheralView};
use crate::foo::generator::{generate_peripheral, generate_system, spec_generate_peripheral, spec_generate_system,
    peripheral_fits, foo_peripherals_view};

verus! {

/// The register of the first generation that a register of the description
/// language gives: its fields stored one by one in order.
pub open spec fn foo_register_of(r: crate::ast::RegisterView) -> RegisterView {
    RegisterView { name: r.name, fields: insert_all(Seq::empty(), r.fields), width: r.width }
}

/// The register entries of the first generation for a register table.
pub open spec fn foo_register_entries(m: Seq<(usize, crate::ast::RegisterView)>) -> Seq<(usize, RegisterView)> {
    m.map_values(|e: (usize, crate::ast::RegisterView)| (e.0, foo_register_of(e.1)))
}

/// The peripheral of the first generation that a peripheral of the
/// description language gives: its name and its register table, stored one
/// by one in order; a peripheral of clusters has no registers there.
pub open spec fn foo_peripheral_of(p: crate::ast::PeripheralView) -> PeripheralView {
    PeripheralView {
        name: p.name,
        regs: match p.regs {
            RegListView::Registers(m) => insert_all(Seq::empty(), foo_register_entries(m)),
            RegListView::Cluster(_) => Seq::empty(),
        },
    }
}

fn to_foo_fields(m: &OffsetMap<crate::ast::FieldAst>) -> (r: OffsetMap<FieldAst>)
    ensures
        r@ == insert_all(Seq::empty(), m@),
{
    let mut out: OffsetMap<FieldAst> = OffsetMap::new();
    let mut i: usize = 0;
    while i < m.len()
        invariant
            i <= m@.len(),
            out.wf(),
            out@ == insert_all(Seq::empty(), m@.take(i as int)),
        decreases m@.len() - i,
    {
        let f = m.value_at(i);
        let g = FieldAst { name: f.name.clone(), width: f.width, enumerate: clone_enum(&f.enumerate) };
        out.insert(m.key_at(i), g);
        proof {
            assert(m@.take(i + 1) == m@.take(i as int).push(m@[i as int]));
            lemma_insert_all_push(Seq::empty(), m@.take(i as int), m@[i as int]);
        }
        i = i + 1;
    }
    assert(m@.take(m@.len() as int) == m@);
    out
}

fn to_foo_register(r: &crate::ast::RegisterAst) -> (o: RegisterAst)
    ensures
        o@ == foo_register_of(r@),
{
    RegisterAst { name: r.name.clone(), fields: to_foo_fields(&r.fields), width: r.width }
}

/// Turns a peripheral of the description language into one of the first
/// generation (see `foo_peripheral_of`).
pub fn to_foo_peripheral(p: &crate::ast::PeripheralAst) -> (o: PeripheralAst)
    ensures
        o@ == foo_peripheral_of(p@),
{
    let mut regs: OffsetMap<RegisterAst> = OffsetMap::new();
    match &p.regs {
        crate::ast::RegList::Registers(m) => {
            let ghost es = foo_register_entries(m@);
            let mut i: usize = 0;
            while i < m.len()
                invariant
                    i <= m@.len(),
                    es == foo_register_entries(m@),
                    regs.wf(),
                    regs@ == insert_all(Seq::empty(), es.take(i as int)),
                decreases m@.len() - i,
            {
                let r = to_foo_register(m.value_at(i));
                regs.insert(m.key_at(i), r);
                proof {
                    assert(es.take(i + 1) == es.take(i as int).push(es[i as int]));
                    lemma_insert_all_push(Seq::empty(), es.take(i as int), es[i as int]);
                }
                i = i + 1;
            }
            assert(es.take(m@.len() as int) == es);
        },
        crate::ast::RegList::Cluster(_) => {},
    }
    PeripheralAst { name: p.name.clone(), regs }
}

/// The word that starts a system declaration.
pub open spec fn system_words() -> Seq<Seq<char>> {
    seq!["system"@]
}

/// The systems declared from `pos` on, each `system NAME;`, and the
/// position after them; the message of a declaration that breaks off.
pub open spec fn spec_systems(ts: Seq<TokenTree>, pos: int) -> Result<(Seq<Seq<char>>, int), Seq<char>>
    decreases ts.len() - pos,
{
    match spec_read_ident_match(ts, pos, system_words()) {
        Err(_) => Ok((Seq::empty(), pos)),
        Ok((_, p1)) => match spec_read_ident(ts, p1) {
            Err(m) => Err(m),
            Ok((name, p2)) => match spec_read_token(ts, p2, Punct::Semi) {
                Err(m) => Err(m),
                Ok((_, p3)) => match spec_systems(ts, p3) {
                    Ok((rest, p4)) => Ok((seq![name] + rest, p4)),
                    Err(m) => Err(m),
                },
            },
        },
    }
}

/// The peripherals read from `pos` on while tokens remain, each as
/// `parse_peripheral` reads it; the message of the first that cannot be
/// read, where one cannot, which stops the reading; and the position where
/// the reading stops.
pub open spec fn spec_peripherals_until(ts: Seq<TokenTree>, pos: int) -> (Seq<crate::ast::PeripheralView>, Option<Seq<char>>, int)
    decreases ts.len() - pos,
{
    if pos < 0 || pos >= ts.len() {
        (Seq::empty(), None, pos)
    } else {
        proof {
            lemma_skip_comments_ge(ts, pos);
        }
        match spec_parse_peripheral(ts, pos) {
            Err(m) => (Seq::empty(), Some(m), peripheral_stop(ts, pos)),
            Ok((p, p2)) => {
                let rest = spec_peripherals_until(ts, p2);
                (seq![p] + rest.0, rest.1, rest.2)
            },
        }
    }
}

/// The code of the peripherals `ps`, in order.
pub open spec fn spec_peripherals_code(ps: Seq<PeripheralView>) -> Seq<char>
    decreases ps.len(),
{
    if ps.len() == 0 {
        Seq::empty()
    } else {
        spec_peripherals_code(ps.drop_last()) + spec_generate_peripheral(ps.last())
    }
}

/// The items of the systems `names`, each over all the peripherals `ps`.
pub open spec fn spec_systems_code(names: Seq<Seq<char>>, ps: Seq<PeripheralView>) -> Seq<char>
    decreases names.len(),
{
    if names.len() == 0 {
        Seq::empty()
    } else {
        spec_systems_code(names.drop_last(), ps) + spec_generate_system(names.last(), ps)
    }
}

/// The first-generation peripherals of a list.
pub open spec fn foo_peripherals_of(ps: Seq<crate::ast::PeripheralView>) -> Seq<PeripheralView> {
    ps.map_values(|p: crate::ast::PeripheralView| foo_peripheral_of(p))
}

/// The message given when tokens remain after the peripherals.
pub open spec fn trailing_message() -> Seq<char> {
    "unexpected content at end of macro"@
}

/// What the macro gives for the tokens `ts` from `pos` on: the messages it
/// reports on the way, and its result. It reads the system declarations,
/// then peripherals while tokens remain; a peripheral that cannot be read
/// is reported and stops the reading. The result is the message of a
/// declaration that breaks off; else, where tokens remain, the message
/// that they do; else the code of every peripheral read, followed by the
/// items of every system.
pub open spec fn spec_generate_peripherals(ts: Seq<TokenTree>, pos: int) -> (Seq<Seq<char>>, Result<Seq<char>, Seq<char>>) {
    match spec_systems(ts, pos) {
        Err(m) => (Seq::empty(), Err(m)),
        Ok((names, p)) => {
            let (ps, err, end) = spec_peripherals_until(ts, p);
            let reported = match err {
                Some(m) => seq![m],
                None => Seq::empty(),
            };
            if end < ts.len() {
                (reported, Err(trailing_message()))
            } else {
                let fps = foo_peripherals_of(ps);
                (reported, Ok(spec_peripherals_code(fps) + spec_systems_code(names, fps)))
            }
        },
    }
}

/// Whether the register tables of the peripherals that the macro reads can
/// be laid out in memory.
pub open spec fn macro_fits(ts: Seq<TokenTree>, pos: int) -> bool {
    spec_systems(ts, pos) matches Ok((_, p)) ==> forall|i: int|
        0 <= i < spec_peripherals_until(ts, p).0.len() ==> #[trigger] peripheral_fits(
            foo_peripheral_of(spec_peripherals_until(ts, p).0[i]),
        )
}

/// The texts of a list of strings.
pub open spec fn strings_view(s: Seq<String>) -> Seq<Seq<char>> {
    s.map_values(|x: String| x@)
}

proof fn lemma_parse_advances(ts: Seq<TokenTree>, pos: int)
    requires
        0 <= pos,
    ensures
        spec_parse_peripheral(ts, pos) matches Ok((_, p)) ==> p > pos,
{
    lemma_skip_comments_ge(ts, pos);
}

/// Reads the system declarations and the peripherals that the reader holds
/// and writes the code of the peripherals, then the items of each system;
/// gives the messages reported on the way beside the result (see
/// `spec_generate_peripherals`).
pub fn generate_peripherals(reader: &mut Reader) -> (r: (Vec<String>, Result<String, String>))
    requires
        old(reader).pos <= old(reader).tokens@.len(),
        macro_fits(old(reader).tokens@, old(reader).pos as int),
    ensures
        strings_view(r.0@) == spec_generate_peripherals(old(reader).tokens@, old(reader).pos as int).0,
        match spec_generate_peripherals(old(reader).tokens@, old(reader).pos as int).1 {
            Ok(code) => r.1 matches Ok(c) && c@ == code,
            Err(m) => r.1 matches Err(e) && e@ == m,
        },
{
    let ghost ts = reader.tokens@;
    let ghost pos0 = reader.pos as int;
    let mut reported: Vec<String> = Vec::new();
    let words: [&str; 1] = ["system"];
    proof {
        assert(words@.map_values(|s: &str| s@) =~= system_words());
        assert(strings_view(reported@) =~= Seq::<Seq<char>>::empty());
    }
    let mut systems: Vec<String> = Vec::new();
    assert(strings_view(systems@) + Seq::<Seq<char>>::empty() =~= Seq::<Seq<char>>::empty());
    assert(strings_view(systems@) =~= Seq::<Seq<char>>::empty());
    loop
        invariant_except_break
            ts == old(reader).tokens@,
            pos0 == old(reader).pos as int,
            reader.tokens@ == ts,
            reader.pos <= ts.len(),
            reported@.len() == 0,
            words@.map_values(|s: &str| s@) == system_words(),
            spec_systems(ts, pos0) == (match spec_systems(ts, reader.pos as int) {
                Ok((rest, p)) => Ok((strings_view(systems@) + rest, p)),
                Err(m) => Err(m),
            }),
        ensures
            ts == old(reader).tokens@,
            pos0 == old(reader).pos as int,
            reader.tokens@ == ts,
            reader.pos <= ts.len(),
            reported@.len() == 0,
            spec_systems(ts, pos0) == Ok::<(Seq<Seq<char>>, int), Seq<char>>((strings_view(systems@), reader.pos as int)),
        decreases ts.len() - reader.pos,
    {
        match reader.read_ident_match(&words) {
            Err(_) => {
                assert(strings_view(systems@) + Seq::<Seq<char>>::empty() =~= strings_view(systems@));
                break;
            },
            Ok(_) => {},
        }
        let name = match reader.read_ident() {
            Ok(n) => n,
            Err(e) => {
                assert(strings_view(reported@) =~= Seq::<Seq<char>>::empty());
                return (reported, Err(e));
            },
        };
        match reader.read_token(Punct::Semi) {
            Ok(_) => {},
            Err(e) => {
                assert(strings_view(reported@) =~= Seq::<Seq<char>>::empty());
                return (reported, Err(e));
            },
        }
        let ghost names = strings_view(systems@);
        systems.push(name);
        proof {
            assert(strings_view(systems@) =~= names.push(name@));
            match spec_systems(ts, reader.pos as int) {
                Ok((rest, p)) => {
                    assert(names + (seq![name@] + rest) =~= strings_view(systems@) + rest);
                },
                Err(m) => {},
            }
        }
    }
    let ghost p_sys = reader.pos as int;
    let ghost names = strings_view(systems@);
    let ghost whole = spec_peripherals_until(ts, p_sys);
    let mut peripherals: Vec<PeripheralAst> = Vec::new();
    let ghost mut seen: Seq<crate::ast::PeripheralView> = Seq::empty();
    assert(foo_peripherals_view(peripherals@) =~= foo_peripherals_of(seen));
    assert(seen + whole.0 =~= whole.0);
    loop
        invariant_except_break
            ts == old(reader).tokens@,
            reader.tokens@ == ts,
            reader.pos <= ts.len(),
            p_sys <= reader.pos,
            reported@.len() == 0,
            spec_systems(ts, old(reader).pos as int) == Ok::<(Seq<Seq<char>>, int), Seq<char>>((names, p_sys)),
            whole == spec_peripherals_until(ts, p_sys),
            whole.0 == seen + spec_peripherals_until(ts, reader.pos as int).0,
            whole.1 == spec_peripherals_until(ts, reader.pos as int).1,
            whole.2 == spec_peripherals_until(ts, reader.pos as int).2,
            foo_peripherals_view(peripherals@) == foo_peripherals_of(seen),
        ensures
            ts == old(reader).tokens@,
            reader.tokens@ == ts,
            reader.pos <= ts.len(),
            spec_systems(ts, old(reader).pos as int) == Ok::<(Seq<Seq<char>>, int), Seq<char>>((names, p_sys)),
            whole == spec_peripherals_until(ts, p_sys),
            whole.0 == seen,
            whole.2 == reader.pos,
            strings_view(reported@) == (match whole.1 {
                Some(m) => seq![m],
                None => Seq::<Seq<char>>::empty(),
            }),
            foo_peripherals_view(peripherals@) == foo_peripherals_of(seen),
        decreases ts.len() - reader.pos,
    {
        if reader.is_done() {
            assert(seen + Seq::<crate::ast::PeripheralView>::empty() =~= seen);
            assert(strings_view(reported@) =~= Seq::<Seq<char>>::empty());
            break;
        }
        proof {
            lemma_parse_advances(ts, reader.pos as int);
            lemma_skip_comments_ge(ts, reader.pos as int);
        }
        match parse_peripheral(reader) {
            Err(e) => {
                let ghost m = e@;
                reported.push(e);
                proof {
                    assert(seen + Seq::<crate::ast::PeripheralView>::empty() =~= seen);
                    assert(strings_view(reported@) =~= seq![m]);
                }
                break;
            },
            Ok(p) => {
                let fp = to_foo_peripheral(&p);
                let ghost prev = peripherals@;
                let ghost fpv = fp@;
                peripherals.push(fp);
                proof {
                    let old_seen = seen;
                    seen = seen.push(p@);
                    assert(foo_peripherals_view(peripherals@) =~= foo_peripherals_of(seen)) by {
                        assert(foo_peripherals_view(prev) == foo_peripherals_of(old_seen));
                        assert(foo_peripherals_view(prev).len() == old_seen.len());
                        assert(fpv == foo_peripheral_of(p@));
                        assert forall|k: int| 0 <= k < seen.len() implies #[trigger] foo_peripherals_view(peripherals@)[k]
                            == foo_peripherals_of(seen)[k] by {
                            if k < old_seen.len() {
                                assert(peripherals@[k] == prev[k]);
                                assert(foo_peripherals_view(prev)[k] == foo_peripherals_of(old_seen)[k]);
                            } else {
                                assert(peripherals@[k]@ == fpv);
                            }
                        }
                    }
                    let rest = spec_peripherals_until(ts, reader.pos as int);
                    assert(old_seen + (seq![p@] + rest.0) =~= seen + rest.0);
                }
            },
        }
    }
    let ghost fps = foo_peripherals_of(seen);
    assert forall|i: int| 0 <= i < fps.len() implies #[trigger] peripheral_fits(fps[i]) by {
        assert(peripheral_fits(foo_peripheral_of(whole.0[i])));
    }
    let mut out = String::new();
    let n = peripherals.len();
    let mut i: usize = 0;
    assert(fps.take(0) =~= Seq::<PeripheralView>::empty());
    while i < n
        invariant
            n == peripherals@.len(),
            fps == foo_peripherals_view(peripherals@),
            forall|k: int| 0 <= k < fps.len() ==> #[trigger] peripheral_fits(fps[k]),
            i <= n,
            out@ == spec_peripherals_code(fps.take(i as int)),
        decreases n - i,
    {
        assert(peripheral_fits(fps[i as int]));
        let t = generate_peripheral(&peripherals[i]);
        out.append(t.as_str());
        proof {
            assert(fps.take(i + 1).drop_last() =~= fps.take(i as int));
            assert(fps.take(i + 1).last() == fps[i as int]);
        }
        i = i + 1;
    }
    assert(fps.take(n as int) =~= fps);
    let mut items = String::new();
    let m = systems.len();
    let mut j: usize = 0;
    assert(names.take(0) =~= Seq::<Seq<char>>::empty());
    while j < m
        invariant
            m == systems@.len(),
            names == strings_view(systems@),
            fps == foo_peripherals_view(peripherals@),
            j <= m,
            items@ == spec_systems_code(names.take(j as int), fps),
        decreases m - j,
    {
        let t = generate_system(systems[j].clone(), &peripherals);
        items.append(t.as_str());
        proof {
            assert(names.take(j + 1).drop_last() =~= names.take(j as int));
            assert(names.take(j + 1).last() == names[j as int]);
        }
        j = j + 1;
    }
    assert(names.take(m as int) =~= names);
    out.append(items.as_str());
    if !reader.is_done() {
        proof {
            reveal_strlit("unexpected content at end of macro");
        }
        return (reported, Err(String::from_str("unexpected content at end of macro")));
    }
    (reported, Ok(out))
}

} // verus!
