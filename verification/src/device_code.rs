//! The `svd_device_code!(NAME, PATH)` entry: its arguments, and the code it
//! generates for a device.

use vstd::prelude::*;
use crate::token::{Token, TokenTree, Punct};
use crate::ast::{PeripheralAst, PeripheralView, RegList, RegListView, Cluster, clusters_view, peripherals_view};
use crate::device::Device;
use crate::common::{device_ok, check_device, parse_xml, spec_parse_xml};
use crate::generator::{peripheral_fits, spec_generate_peripheral, generate_peripheral, spec_generate_system, generate_system};
use crate::layout::layout_fits;

verus! {

/// The two string arguments of `svd_device_code!`: a name and a path, with a
/// comma between them and nothing else.
pub open spec fn spec_parse_tokens(ts: Seq<TokenTree>) -> Option<(Seq<char>, Seq<char>)> {
    if ts.len() != 3 {
        None
    } else {
        match (ts[0], ts[1], ts[2]) {
            (TokenTree::Token(Token::Str(a)), TokenTree::Token(Token::Punct(Punct::Comma)), TokenTree::Token(Token::Str(b))) => Some((a@, b@)),
            _ => None,
        }
    }
}

/// Reads the arguments of `svd_device_code!` (see `spec_parse_tokens`).
pub fn parse_tokens(tokens: &[TokenTree]) -> (r: Result<(String, String), ()>)
    ensures
        match spec_parse_tokens(tokens@) {
            Some((a, b)) => r matches Ok((x, y)) && x@ == a && y@ == b,
            None => r is Err,
        },
{
    if tokens.len() != 3 {
        return Err(());
    }
    let svd_name = match &tokens[0] {
        TokenTree::Token(Token::Str(name)) => name.clone(),
        _ => {
            return Err(());
        },
    };
    match &tokens[1] {
        TokenTree::Token(Token::Punct(Punct::Comma)) => {},
        _ => {
            return Err(());
        },
    }
    let svd_path = match &tokens[2] {
        TokenTree::Token(Token::Str(name)) => name.clone(),
        _ => {
            return Err(());
        },
    };
    Ok((svd_name, svd_path))
}

/// The modules of the peripherals `ps`, in order.
pub open spec fn spec_peripherals_code(ps: Seq<PeripheralView>) -> Seq<char>
    decreases ps.len(),
{
    if ps.len() == 0 {
        Seq::empty()
    } else {
        spec_peripherals_code(ps.drop_last()) + spec_generate_peripheral(ps.last())
    }
}

/// The code for the system `name` with the peripherals `ps`: a module per
/// peripheral, then the system items.
pub open spec fn spec_generate_device(name: Seq<char>, ps: Seq<PeripheralView>) -> Seq<char> {
    spec_peripherals_code(ps) + spec_generate_system(name, ps)
}

/// Writes the code for the system `name` with the given peripherals.
pub fn generate_device(name: &str, peripheral_asts: &Vec<PeripheralAst>) -> (r: String)
    requires
        forall|i: int| 0 <= i < peripheral_asts@.len() ==> peripheral_fits(#[trigger] peripheral_asts@[i]@),
    ensures
        r@ == spec_generate_device(name@, peripherals_view(peripheral_asts@)),
{
    let ghost ps = peripherals_view(peripheral_asts@);
    let mut result = String::new();
    let mut i: usize = 0;
    assert(ps.take(0) =~= Seq::<PeripheralView>::empty());
    while i < peripheral_asts.len()
        invariant
            0 <= i <= peripheral_asts@.len(),
            ps == peripherals_view(peripheral_asts@),
            forall|j: int| 0 <= j < peripheral_asts@.len() ==> peripheral_fits(#[trigger] peripheral_asts@[j]@),
            result@ == spec_peripherals_code(ps.take(i as int)),
        decreases peripheral_asts@.len() - i,
    {
        let code = generate_peripheral(&peripheral_asts[i]);
        result.append(code.as_str());
        assert(ps.take(i + 1).drop_last() == ps.take(i as int));
        assert(ps.take(i + 1).last() == peripheral_asts@[i as int]@);
        i = i + 1;
    }
    assert(ps.take(i as int) == ps);
    let system = generate_system(name, peripheral_asts);
    result.append(system.as_str());
    result
}

/// Whether the register tables of a peripheral can be laid out (see `peripheral_fits`).
pub fn check_fits(p: &PeripheralAst) -> (r: bool)
    ensures
        r == peripheral_fits(p@),
{
    match &p.regs {
        RegList::Registers(m) => layout_fits(m),
        RegList::Cluster(cs) => {
            let ghost v = clusters_view(cs@);
            assert(p@.regs == RegListView::Cluster(v));
            let mut i: usize = 0;
            while i < cs.len()
                invariant
                    0 <= i <= cs@.len(),
                    v == clusters_view(cs@),
                    p@.regs == RegListView::Cluster(v),
                    forall|j: int| 0 <= j < i ==> crate::layout::layout_end(#[trigger] v[j].registers, 0, 0) <= usize::MAX,
                decreases cs@.len() - i,
            {
                if !layout_fits(&cs[i].registers) {
                    assert(v[i as int] == cs@[i as int]@);
                    proof {
                        if let RegListView::Cluster(cs2) = p@.regs {
                            assert(cs2 == v);
                            assert(!(crate::layout::layout_end(cs2[i as int].registers, 0, 0) <= usize::MAX));
                        }
                    }
                    return false;
                }
                assert(v[i as int] == cs@[i as int]@);
                i = i + 1;
            }
            assert(p@.regs == RegListView::Cluster(v));
            true
        },
    }
}

/// Generates the code for the system `name` from its device description:
/// the peripheral ASTs (see `parse_xml`), a module per peripheral and the
/// system items. `None` where the description names a peripheral to derive
/// from that does not come before, has registers that cannot be turned into
/// AST entries, or a register table that cannot be laid out.
pub fn svd_device_code(name: &str, device: Device) -> (r: Option<String>)
    ensures
        r is Some <==> device_ok(device) && forall|i: int| 0 <= i < spec_parse_xml(device).len() ==> peripheral_fits(#[trigger] spec_parse_xml(device)[i]),
        r matches Some(t) ==> t@ == spec_generate_device(name@, spec_parse_xml(device)),
{
    if !check_device(&device) {
        return None;
    }
    let ghost d = device;
    let peripheral_asts = parse_xml(device);
    let ghost ps = peripherals_view(peripheral_asts@);
    let mut i: usize = 0;
    while i < peripheral_asts.len()
        invariant
            0 <= i <= peripheral_asts@.len(),
            ps == peripherals_view(peripheral_asts@),
            ps == spec_parse_xml(d),
            d == device,
            forall|j: int| 0 <= j < i ==> peripheral_fits(#[trigger] peripheral_asts@[j]@),
        decreases peripheral_asts@.len() - i,
    {
        if !check_fits(&peripheral_asts[i]) {
            assert(ps[i as int] == peripheral_asts@[i as int]@);
            assert(!peripheral_fits(spec_parse_xml(d)[i as int]));
            return None;
        }
        i = i + 1;
    }
    assert forall|j: int| 0 <= j < ps.len() implies peripheral_fits(#[trigger] ps[j]) by {
        assert(ps[j] == peripheral_asts@[j]@);
    }
    Some(generate_device(name, &peripheral_asts))
}

} // verus!
