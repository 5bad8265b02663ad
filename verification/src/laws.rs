//! What holds of every expansion and every parse, proved over the spec
//! functions that the library's contracts use.

use vstd::prelude::*;
use crate::tokens::{Delim, TokV};
use crate::scan::{Span, Stop, lemma_scan_bounds};
use crate::emit::{id, pn, pj, span_of, s_span, span_ok};
use crate::parse::{Inherited, p_attrs, p_vis, lemma_attrs_end, lemma_vis};
use crate::items::{AnyItemV, p_item};
use crate::items::non_virt::{self, s_non_virt_item, s_non_virt_items};
use crate::items::virt::{VirtFnArg, VirtFnArgKind, VirtFnV, p_fn_arg, s_fn_arg, p_virt_fn, s_virt_fn};
use crate::items::reread::{same_fn, reread_fn, lemma_virt_fn_layout, lemma_virt_fn_reread,
    lemma_fn_args_same, lemma_fn_args_app};
use crate::expand::{
    ClassKind, ExpandError, InvocationV, class_kind_of, rest_of, param_arg, s_repr_c, s_inherited_field,
    s_inherited_fields, s_opt_field, s_params, s_where, s_head, s_impl_for, s_copy_impl, s_vtable_field,
    s_vtable_fields, s_virtual_entry, s_vtable_def, s_nonvirt_struct, s_nonvirt_impl, s_nonvirt_def,
    data_has_generics, vtable_type, data_type, s_virt_struct, s_virt_impl, s_data_def, s_virt_def,
    s_expand_impl, s_expand, vt_name, data_name, where_tokens, virtual_base, s_base_data,
};

verus! {

// ---------------------------------------------------------------- appending

// Each builder appends to what it is given: `f(acc) == acc + f(empty)`.

#[verifier::rlimit(30)]
#[verifier::spinoff_prover]
proof fn app_head(acc: Seq<TokV>, inv: InvocationV)
    ensures
        s_head(acc, inv) == acc + s_head(seq![], inv),
{
    reveal(s_head);
    assert(s_head(acc, inv) =~= acc + s_head(seq![], inv));
}

#[verifier::rlimit(30)]
#[verifier::spinoff_prover]
proof fn app_impl_for(acc: Seq<TokV>, inv: InvocationV, tr: Seq<char>)
    ensures
        s_impl_for(acc, inv, tr) == acc + s_impl_for(seq![], inv, tr),
{
    reveal(s_impl_for);
    assert(s_impl_for(acc, inv, tr) =~= acc + s_impl_for(seq![], inv, tr));
}

#[verifier::rlimit(30)]
#[verifier::spinoff_prover]
proof fn app_copy_impl(acc: Seq<TokV>, inv: InvocationV, nm: Seq<char>)
    ensures
        s_copy_impl(acc, inv, nm) == acc + s_copy_impl(seq![], inv, nm),
{
    reveal(s_copy_impl);
    assert(s_copy_impl(acc, inv, nm) =~= acc + s_copy_impl(seq![], inv, nm));
}

proof fn app_inherited_field(acc: Seq<TokV>, ts: Seq<TokV>, cp: Span, i: Inherited)
    ensures
        s_inherited_field(acc, ts, cp, i) == acc + s_inherited_field(seq![], ts, cp, i),
{
    reveal(s_inherited_field);
    assert(s_inherited_field(acc, ts, cp, i) =~= acc + s_inherited_field(seq![], ts, cp, i));
}

proof fn app_inherited_fields(acc: Seq<TokV>, ts: Seq<TokV>, cp: Span, list: Seq<Inherited>)
    ensures
        s_inherited_fields(acc, ts, cp, list) == acc + s_inherited_fields(seq![], ts, cp, list),
    decreases list.len(),
{
    if list.len() == 0 {
        assert(acc =~= acc + Seq::<TokV>::empty());
    } else {
        app_inherited_fields(acc, ts, cp, list.drop_last());
        let e = s_inherited_fields(seq![], ts, cp, list.drop_last());
        app_inherited_field(acc + e, ts, cp, list.last());
        app_inherited_field(e, ts, cp, list.last());
        assert(s_inherited_fields(acc, ts, cp, list) =~= acc + s_inherited_fields(seq![], ts, cp, list));
    }
}

proof fn app_opt_field(acc: Seq<TokV>, ts: Seq<TokV>, cp: Span, base: Option<Inherited>)
    ensures
        s_opt_field(acc, ts, cp, base) == acc + s_opt_field(seq![], ts, cp, base),
{
    if let Some(b) = base {
        app_inherited_field(acc, ts, cp, b);
    }
    assert(s_opt_field(acc, ts, cp, base) =~= acc + s_opt_field(seq![], ts, cp, base));
}

proof fn app_non_virt_item(acc: Seq<TokV>, ts: Seq<TokV>, it: non_virt::Item)
    ensures
        s_non_virt_item(acc, ts, it) == acc + s_non_virt_item(seq![], ts, it),
{
    reveal(s_non_virt_item);
    assert(s_non_virt_item(acc, ts, it) =~= acc + s_non_virt_item(seq![], ts, it));
}

proof fn app_non_virt_items(acc: Seq<TokV>, ts: Seq<TokV>, list: Seq<non_virt::Item>)
    ensures
        s_non_virt_items(acc, ts, list) == acc + s_non_virt_items(seq![], ts, list),
    decreases list.len(),
{
    if list.len() == 0 {
        assert(acc =~= acc + Seq::<TokV>::empty());
    } else {
        app_non_virt_items(acc, ts, list.drop_last());
        let e = s_non_virt_items(seq![], ts, list.drop_last());
        app_non_virt_item(acc + e, ts, list.last());
        app_non_virt_item(e, ts, list.last());
        assert(s_non_virt_items(acc, ts, list) =~= acc + s_non_virt_items(seq![], ts, list));
    }
}

#[verifier::rlimit(30)]
#[verifier::spinoff_prover]
proof fn app_vtable_field(acc: Seq<TokV>, inv: InvocationV, it: crate::items::virt::ItemV)
    ensures
        s_vtable_field(acc, inv, it) == acc + s_vtable_field(seq![], inv, it),
{
    reveal(s_vtable_field);
    assert(s_vtable_field(acc, inv, it) =~= acc + s_vtable_field(seq![], inv, it));
}

proof fn app_vtable_fields(acc: Seq<TokV>, inv: InvocationV, list: Seq<crate::items::virt::ItemV>)
    ensures
        s_vtable_fields(acc, inv, list) == acc + s_vtable_fields(seq![], inv, list),
    decreases list.len(),
{
    if list.len() == 0 {
        assert(acc =~= acc + Seq::<TokV>::empty());
    } else {
        app_vtable_fields(acc, inv, list.drop_last());
        let e = s_vtable_fields(seq![], inv, list.drop_last());
        app_vtable_field(acc + e, inv, list.last());
        app_vtable_field(e, inv, list.last());
        assert(s_vtable_fields(acc, inv, list) =~= acc + s_vtable_fields(seq![], inv, list));
    }
}

proof fn app_virtual_entry(acc: Seq<TokV>, inv: InvocationV, b: Inherited, assoc: Seq<char>)
    ensures
        s_virtual_entry(acc, inv, b, assoc) == acc + s_virtual_entry(seq![], inv, b, assoc),
{
    reveal(s_virtual_entry);
    assert(s_virtual_entry(acc, inv, b, assoc) =~= acc + s_virtual_entry(seq![], inv, b, assoc));
}

/// The part of the table struct before its fields.
pub open spec fn vtable_head(inv: InvocationV) -> Seq<TokV> {
    s_where(s_params(s_span(s_repr_c(seq![]), inv.tokens, inv.class.vis).push(id("struct"@)).push(id(vt_name(inv))), inv), inv)
        .push(TokV::Open(Delim::Brace))
}

#[verifier::rlimit(60)]
#[verifier::spinoff_prover]
proof fn app_vtable_def(acc: Seq<TokV>, inv: InvocationV, base: Option<Inherited>)
    ensures
        s_vtable_def(acc, inv, base) == acc + s_vtable_def(seq![], inv, base),
        s_vtable_def(seq![], inv, base) == vtable_head(inv)
            + (match base { Some(b) => s_virtual_entry(seq![], inv, b, "VTable"@), None => seq![] })
            + s_vtable_fields(seq![], inv, inv.class.items.virt) + seq![TokV::Close(Delim::Brace)]
            + s_copy_impl(seq![], inv, vt_name(inv)),
{
    let h = vtable_head(inv);
    let ah = s_where(s_params(s_span(s_repr_c(acc), inv.tokens, inv.class.vis).push(id("struct"@)).push(id(vt_name(inv))), inv), inv)
        .push(TokV::Open(Delim::Brace));
    assert(ah =~= acc + h);
    let e = match base { Some(b) => s_virtual_entry(seq![], inv, b, "VTable"@), None => seq![] };
    let ch = match base { Some(b) => s_virtual_entry(h, inv, b, "VTable"@), None => h };
    let ca = match base { Some(b) => s_virtual_entry(acc + h, inv, b, "VTable"@), None => acc + h };
    if let Some(b) = base {
        app_virtual_entry(h, inv, b, "VTable"@);
        app_virtual_entry(acc + h, inv, b, "VTable"@);
    }
    assert(ch =~= h + e);
    assert(ca =~= acc + h + e);
    let f = s_vtable_fields(seq![], inv, inv.class.items.virt);
    app_vtable_fields(ch, inv, inv.class.items.virt);
    app_vtable_fields(ca, inv, inv.class.items.virt);
    let fh = s_vtable_fields(ch, inv, inv.class.items.virt).push(TokV::Close(Delim::Brace));
    let fa = s_vtable_fields(ca, inv, inv.class.items.virt).push(TokV::Close(Delim::Brace));
    app_copy_impl(fh, inv, vt_name(inv));
    app_copy_impl(fa, inv, vt_name(inv));
    assert(s_vtable_def(acc, inv, base) =~= acc + s_vtable_def(seq![], inv, base));
    assert(s_vtable_def(seq![], inv, base) =~= h + e + f + seq![TokV::Close(Delim::Brace)]
        + s_copy_impl(seq![], inv, vt_name(inv)));
}

proof fn app_base_data(acc: Seq<TokV>, inv: InvocationV, base: Option<Inherited>)
    ensures
        s_base_data(acc, inv, base) == acc + s_base_data(seq![], inv, base),
{
    if let Some(b) = base {
        if b.is_virtual {
            app_virtual_entry(acc, inv, b, "Data"@);
        } else {
            app_opt_field(acc, inv.tokens, inv.crate_path, base);
        }
    } else {
        assert(acc =~= acc + Seq::<TokV>::empty());
    }
}

/// The part of the data struct before its fields.
pub open spec fn data_head(inv: InvocationV, has: bool) -> Seq<TokV> {
    let g = s_span(s_repr_c(seq![]), inv.tokens, inv.class.vis).push(id("struct"@)).push(id(data_name(inv))).push(pn('<'));
    let h = if has { s_span(g, inv.tokens, inv.class.generics.list) } else { g };
    (if has { s_where(h.push(pn('>')), inv) } else { h.push(pn('>')) }).push(TokV::Open(Delim::Brace))
}

#[verifier::rlimit(60)]
#[verifier::spinoff_prover]
proof fn app_data_def(acc: Seq<TokV>, inv: InvocationV, base: Option<Inherited>, with_rest: bool, has: bool)
    ensures
        s_data_def(acc, inv, base, with_rest, has) == acc + s_data_def(seq![], inv, base, with_rest, has),
        s_data_def(seq![], inv, base, with_rest, has) == data_head(inv, has)
            + s_base_data(seq![], inv, base)
            + s_inherited_fields(seq![], inv.tokens, inv.crate_path, rest_of(inv.class, with_rest))
            + s_non_virt_items(seq![], inv.tokens, inv.class.items.non_virt) + seq![TokV::Close(Delim::Brace)],
{
    let ts = inv.tokens;
    let h = data_head(inv, has);
    let ga = s_span(s_repr_c(acc), ts, inv.class.vis).push(id("struct"@)).push(id(data_name(inv))).push(pn('<'));
    let ha = if has { s_span(ga, ts, inv.class.generics.list) } else { ga };
    let ia = (if has { s_where(ha.push(pn('>')), inv) } else { ha.push(pn('>')) }).push(TokV::Open(Delim::Brace));
    assert(ia =~= acc + h);
    let e = s_base_data(seq![], inv, base);
    let jh = s_base_data(h, inv, base);
    let ja = s_base_data(acc + h, inv, base);
    app_base_data(h, inv, base);
    app_base_data(acc + h, inv, base);
    assert(jh =~= h + e);
    assert(ja =~= acc + h + e);
    let rest = rest_of(inv.class, with_rest);
    app_inherited_fields(jh, ts, inv.crate_path, rest);
    app_inherited_fields(ja, ts, inv.crate_path, rest);
    let r = s_inherited_fields(seq![], ts, inv.crate_path, rest);
    app_non_virt_items(jh + r, ts, inv.class.items.non_virt);
    app_non_virt_items(ja + r, ts, inv.class.items.non_virt);
    let n = s_non_virt_items(seq![], ts, inv.class.items.non_virt);
    assert(s_data_def(acc, inv, base, with_rest, has) =~= acc + s_data_def(seq![], inv, base, with_rest, has));
    assert(s_data_def(seq![], inv, base, with_rest, has) =~= h + e + r + n + seq![TokV::Close(Delim::Brace)]);
}

// ---------------------------------------------------------------- laws of the expansion

/// Every class struct, plain or with a vtable, is `#[repr(C)]`, then the
/// class's attributes and visibility, `struct`, its name, `<` its generic
/// parameters as declared `>`, its `where` clause unless it is a bare
/// `where`, and `{`.
pub proof fn law_struct_head(inv: InvocationV)
    ensures
        s_head(seq![], inv) == seq![pn('#'), TokV::Open(Delim::Bracket), id("repr"@), TokV::Open(Delim::Paren),
            id("C"@), TokV::Close(Delim::Paren), TokV::Close(Delim::Bracket)]
            + span_of(inv.tokens, inv.class.attrs) + span_of(inv.tokens, inv.class.vis) + seq![id("struct"@)]
            + span_of(inv.tokens, inv.class.name) + seq![pn('<')] + span_of(inv.tokens, inv.class.generics.list)
            + seq![pn('>')] + where_tokens(inv)
            + seq![TokV::Open(Delim::Brace)],
{
    reveal(s_head);
    assert(s_head(seq![], inv) =~= seq![pn('#'), TokV::Open(Delim::Bracket), id("repr"@), TokV::Open(Delim::Paren),
            id("C"@), TokV::Close(Delim::Paren), TokV::Close(Delim::Bracket)]
            + span_of(inv.tokens, inv.class.attrs) + span_of(inv.tokens, inv.class.vis) + seq![id("struct"@)]
            + span_of(inv.tokens, inv.class.name) + seq![pn('<')] + span_of(inv.tokens, inv.class.generics.list)
            + seq![pn('>')] + where_tokens(inv)
            + seq![TokV::Open(Delim::Brace)]);
}

/// A class with virtual items or a virtual base becomes, in this order, its
/// struct, its `Virtual` impl, its table and its data struct. The struct's
/// first field is `pub vtable: crate::VTablePtr<V>` and its second
/// `pub data: D`, and the `Virtual` impl names the same `V` as `VTable` and
/// the same `D` as `Data`: the layout that `Virtual` requires.
#[verifier::rlimit(60)]
#[verifier::spinoff_prover]
pub proof fn law_virtual_layout(inv: InvocationV, base: Option<Inherited>, with_rest: bool)
    ensures
        ({
            let has = data_has_generics(inv, base);
            let v = vtable_type(inv);
            let d = data_type(inv, has);
            &&& s_virt_def(seq![], inv, base, with_rest) == s_virt_struct(seq![], inv, has)
                + s_virt_impl(seq![], inv, has) + s_vtable_def(seq![], inv, virtual_base(base))
                + s_data_def(seq![], inv, base, with_rest, has)
            &&& s_virt_struct(seq![], inv, has) == s_head(seq![], inv)
                + seq![id("pub"@), id("vtable"@), pn(':')] + span_of(inv.tokens, inv.crate_path)
                + seq![pj(':'), pn(':'), id("VTablePtr"@), pn('<')] + v
                + seq![pn('>'), pn(','), id("pub"@), id("data"@), pn(':')] + d
                + seq![pn(','), TokV::Close(Delim::Brace)]
            &&& s_virt_impl(seq![], inv, has) == s_impl_for(seq![], inv, "Virtual"@)
                + seq![id("type"@), id("This"@), pn('='), id("Self"@), pn(';'), id("type"@), id("VTable"@), pn('=')]
                + v + seq![pn(';'), id("type"@), id("Data"@), pn('=')] + d
                + seq![pn(';'), TokV::Close(Delim::Brace)]
        }),
{
    let has = data_has_generics(inv, base);
    let st = s_virt_struct(seq![], inv, has);
    let im = s_virt_impl(seq![], inv, has);
    app_head(seq![], inv);
    assert(st =~= s_head(seq![], inv)
        + seq![id("pub"@), id("vtable"@), pn(':')] + span_of(inv.tokens, inv.crate_path)
        + seq![pj(':'), pn(':'), id("VTablePtr"@), pn('<')] + vtable_type(inv)
        + seq![pn('>'), pn(','), id("pub"@), id("data"@), pn(':')] + data_type(inv, has)
        + seq![pn(','), TokV::Close(Delim::Brace)]);
    app_impl_for(seq![], inv, "Virtual"@);
    assert(im =~= s_impl_for(seq![], inv, "Virtual"@)
        + seq![id("type"@), id("This"@), pn('='), id("Self"@), pn(';'), id("type"@), id("VTable"@), pn('=')]
        + vtable_type(inv) + seq![pn(';'), id("type"@), id("Data"@), pn('=')] + data_type(inv, has)
        + seq![pn(';'), TokV::Close(Delim::Brace)]);
    app_impl_for(st, inv, "Virtual"@);
    let si = s_virt_impl(st, inv, has);
    assert(si =~= st + im);
    app_vtable_def(si, inv, virtual_base(base));
    let sv = s_vtable_def(si, inv, virtual_base(base));
    app_data_def(sv, inv, base, with_rest, has);
    assert(s_virt_def(seq![], inv, base, with_rest) =~= st + im + s_vtable_def(seq![], inv, virtual_base(base))
        + s_data_def(seq![], inv, base, with_rest, has));
}

/// The first inherited class of a class with a vtable is embedded first.
/// A virtual one begins both the table,
/// `vis inherited_base: <Base as crate::Virtual>::VTable,`, and the data,
/// `vis inherited_base: <Base as crate::Virtual>::Data,`. A non-virtual one
/// begins the data whole, `attrs vis inherited_base: <Base as
/// crate::NonVirtual>::This,`, and the table holds only the class's own
/// entries. Either way the data struct takes the class's generics, and the
/// data of the other inherited classes and the class's own fields follow.
pub proof fn law_virtual_base_first(inv: InvocationV, b: Inherited, with_rest: bool)
    ensures
        ({
            let has = data_has_generics(inv, Some(b));
            &&& has
            &&& s_vtable_def(seq![], inv, virtual_base(Some(b))) == vtable_head(inv)
                + (if b.is_virtual { s_virtual_entry(seq![], inv, b, "VTable"@) } else { seq![] })
                + s_vtable_fields(seq![], inv, inv.class.items.virt) + seq![TokV::Close(Delim::Brace)]
                + s_copy_impl(seq![], inv, vt_name(inv))
            &&& s_data_def(seq![], inv, Some(b), with_rest, has) == data_head(inv, has)
                + (if b.is_virtual {
                    s_virtual_entry(seq![], inv, b, "Data"@)
                } else {
                    s_inherited_field(seq![], inv.tokens, inv.crate_path, b).push(pn(','))
                })
                + s_inherited_fields(seq![], inv.tokens, inv.crate_path, rest_of(inv.class, with_rest))
                + s_non_virt_items(seq![], inv.tokens, inv.class.items.non_virt) + seq![TokV::Close(Delim::Brace)]
        }),
{
    app_vtable_def(seq![], inv, virtual_base(Some(b)));
    app_data_def(seq![], inv, Some(b), with_rest, data_has_generics(inv, Some(b)));
    if !b.is_virtual {
        assert(s_base_data(seq![], inv, Some(b)) == s_inherited_field(seq![], inv.tokens, inv.crate_path, b).push(pn(',')));
    }
}

/// A plain class is one struct whose fields are, in this order, the first
/// inherited class, the other inherited classes and the class's own items,
/// followed by its `NonVirtual` impl.
#[verifier::rlimit(60)]
#[verifier::spinoff_prover]
pub proof fn law_plain_layout(inv: InvocationV, base: Option<Inherited>, with_rest: bool)
    ensures
        s_nonvirt_def(seq![], inv, base, with_rest) == s_head(seq![], inv)
            + s_opt_field(seq![], inv.tokens, inv.crate_path, base)
            + s_inherited_fields(seq![], inv.tokens, inv.crate_path, rest_of(inv.class, with_rest))
            + s_non_virt_items(seq![], inv.tokens, inv.class.items.non_virt) + seq![TokV::Close(Delim::Brace)]
            + s_nonvirt_impl(seq![], inv),
{
    let ts = inv.tokens;
    let h = s_head(seq![], inv);
    app_opt_field(h, ts, inv.crate_path, base);
    let o = s_opt_field(h, ts, inv.crate_path, base);
    let rest = rest_of(inv.class, with_rest);
    app_inherited_fields(o, ts, inv.crate_path, rest);
    let r = s_inherited_fields(o, ts, inv.crate_path, rest);
    app_non_virt_items(r, ts, inv.class.items.non_virt);
    let st = s_nonvirt_struct(seq![], inv, base, with_rest);
    app_impl_for(st, inv, "NonVirtual"@);
    app_impl_for(seq![], inv, "NonVirtual"@);
    assert(s_nonvirt_impl(st, inv) =~= st + s_nonvirt_impl(seq![], inv));
    assert(s_nonvirt_def(seq![], inv, base, with_rest) =~= h
        + s_opt_field(seq![], ts, inv.crate_path, base)
        + s_inherited_fields(seq![], ts, inv.crate_path, rest)
        + s_non_virt_items(seq![], ts, inv.class.items.non_virt) + seq![TokV::Close(Delim::Brace)]
        + s_nonvirt_impl(seq![], inv));
}

/// A class is laid out with a vtable exactly when it has virtual items of
/// its own or its first base is virtual. Either way the layout carries the
/// first inherited class and the others after it. A class laid out without one is
/// expanded to its plain struct and `NonVirtual` impl; a class laid out with
/// one, when it is expanded, to its struct, `Virtual` impl, table and data.
pub proof fn law_kind(inv: InvocationV)
    ensures
        (class_kind_of(inv.class) is VirtOrFromVirt) <==> (inv.class.items.virt.len() > 0
            || (inv.class.inheritance matches Some(inh) && inh.base.is_virtual)),
        match class_kind_of(inv.class) {
            ClassKind::NonVirt { base, with_rest } | ClassKind::VirtOrFromVirt { base, with_rest } => match inv.class.inheritance {
                Some(inh) => base == Some(inh.base) && with_rest,
                None => base is None && !with_rest,
            },
        },
        match class_kind_of(inv.class) {
            ClassKind::NonVirt { base, with_rest } =>
                s_expand_impl(inv) == Ok::<Seq<TokV>, ExpandError>(s_nonvirt_def(seq![], inv, base, with_rest)),
            ClassKind::VirtOrFromVirt { base, with_rest } => s_expand_impl(inv) is Ok ==>
                s_expand_impl(inv) == Ok::<Seq<TokV>, ExpandError>(s_virt_def(seq![], inv, base, with_rest)),
        },
{
}

/// Expansion refuses a class only when its first base is virtual and has
/// attributes, and then says where they start; every other class is
/// expanded, a class that inherits with `unsafe impl crate::Inherits<Base>`
/// for its first base before its own items.
pub proof fn law_expand_errors(inv: InvocationV)
    ensures
        match inv.class.inheritance {
            Some(inh) => if inh.base.is_virtual && inh.base.attrs.start != inh.base.attrs.end {
                s_expand(inv) == Err::<Seq<TokV>, ExpandError>(ExpandError::BaseAttributes { at: inh.base.attrs.start })
            } else {
                s_expand_impl(inv) is Ok
                    && s_expand(inv) == Ok::<Seq<TokV>, ExpandError>(
                        crate::expand::s_inherits(seq![], inv, inh.base) + s_expand_impl(inv)->Ok_0)
            },
            None => s_expand_impl(inv) is Ok && s_expand(inv) == s_expand_impl(inv),
        },
{
}

// ---------------------------------------------------------------- laws of the grammar

/// A type parameter without attributes is passed on as its name alone, its
/// bounds and default left out.
pub proof fn law_type_param_argument(ts: Seq<TokV>, s: Span, name: Seq<char>)
    requires
        s.start < s.end <= ts.len(),
        ts[s.start as int] == TokV::Ident(name),
        name != "const"@,
    ensures
        param_arg(ts, s) == seq![TokV::Ident(name)],
{
    assert(span_of(ts, Span { start: s.start, end: s.start }) =~= Seq::<TokV>::empty());
}

/// A field item reads back as written: its attributes, visibility, name,
/// `:` and type, when the `:` stands alone, followed by the `;` that ends
/// it, are the tokens it was read from.
pub proof fn law_field_item_prints_as_read(ts: Seq<TokV>, p: usize, end: usize, it: non_virt::Item, q: usize)
    requires
        p <= end <= ts.len(),
        p_item(ts, p, end) == Ok::<(AnyItemV, usize), crate::error::ParseError>((AnyItemV::NonVirt(it), q)),
        it.kind is Field,
        ts[it.kind->Field_0.name.end as int] == pn(':'),
    ensures
        s_non_virt_item(seq![], ts, it).push(ts[q - 1]) == ts.subrange(p as int, q as int),
{
    reveal(s_non_virt_item);
    lemma_attrs_end(ts, p, end);
    let (attrs, p1) = p_attrs(ts, p, end)->Ok_0;
    lemma_vis(ts, p1, end);
    let (vis, p2) = p_vis(ts, p1, end);
    let f = it.kind->Field_0;
    lemma_scan_bounds(ts, p2 + 2, end as int, 0, 0, Stop::Semi);
    assert(it.attrs == attrs && it.vis == vis);
    assert(f.name == Span { start: p2, end: (p2 + 1) as usize });
    assert(f.ty.start == p2 + 2 && f.ty.end + 1 == q && q <= end);
    assert(s_non_virt_item(seq![], ts, it).push(ts[q - 1]) =~= ts.subrange(p as int, q as int));
}

/// A parameter of a virtual function reads back as written: its
/// attributes and `...`, or its attributes, pattern, `:` and type when the
/// `:` stands alone, are the tokens it was read from.
pub proof fn law_fn_arg_prints_as_read(ts: Seq<TokV>, p: usize, end: usize, a: VirtFnArg, q: usize)
    requires
        p <= end <= ts.len(),
        p_fn_arg(ts, p, end) == Ok::<(VirtFnArg, usize), crate::error::ParseError>((a, q)),
        a.kind matches VirtFnArgKind::Typed { pat, ty } ==> ts[pat.end as int] == pn(':'),
    ensures
        s_fn_arg(seq![], ts, a) == ts.subrange(p as int, q as int),
{
    lemma_attrs_end(ts, p, end);
    let (attrs, p1) = p_attrs(ts, p, end)->Ok_0;
    lemma_scan_bounds(ts, p1 as int, end as int, 0, 0, Stop::Colon);
    let q1 = crate::scan::scan(ts, p1 as int, end as int, 0, 0, Stop::Colon);
    lemma_scan_bounds(ts, q1 + 1, end as int, 0, 0, Stop::Comma);
    assert(a.attrs == attrs);
    assert(s_fn_arg(seq![], ts, a) =~= ts.subrange(p as int, q as int));
}

/// A virtual function prints as tokens that read back as the same
/// function: the same name and return type, and parameters that print the
/// same tokens, so that printing it again gives the same tokens. (The
/// printed list puts a comma after every parameter, the last one too.)
#[verifier::rlimit(60)]
#[verifier::spinoff_prover]
pub proof fn law_virt_fn_reads_back(ts: Seq<TokV>, p: usize, end: usize, f: VirtFnV, q: usize)
    requires
        p <= end <= ts.len(),
        end < usize::MAX,
        p_virt_fn(ts, p, end) == Ok::<(VirtFnV, usize), crate::error::ParseError>((f, q)),
    ensures
        ({
            let out = s_virt_fn(seq![], ts, f);
            &&& p_virt_fn(out, 0, out.len() as usize) is Ok
            &&& p_virt_fn(out, 0, out.len() as usize)->Ok_0.1 == out.len()
            &&& same_fn(out, p_virt_fn(out, 0, out.len() as usize)->Ok_0.0, ts, f)
            &&& s_virt_fn(seq![], out, p_virt_fn(out, 0, out.len() as usize)->Ok_0.0) == out
        }),
{
    lemma_virt_fn_reread(ts, p, end, f, q);
    let out = s_virt_fn(seq![], ts, f);
    let g = reread_fn(ts, p, f);
    lemma_fn_args_same(ts, f.inputs, out, g.inputs);
    lemma_virt_fn_layout(ts, p, end, f, q);
    assert(span_of(ts, f.name) =~= seq![ts[p + 1]]);
    assert(span_of(ts, f.output) =~= ts.subrange(f.args.end + 1, q as int));
    let h2 = seq![id("fn"@)] + span_of(out, g.name) + seq![TokV::Open(Delim::Paren)];
    lemma_fn_args_app(h2, out, g.inputs);
    assert(s_span(seq![id("fn"@)], out, g.name).push(TokV::Open(Delim::Paren)) =~= h2);
    assert(s_virt_fn(seq![], out, g) =~= out);
}

// ---------------------------------------------------------------- order and clauses of the pieces

/// The virtual function table lists its entries in the order the virtual
/// items were declared: printing the items of `first` and then those of
/// `second` is printing the items of `first + second`, so the `k`-th entry
/// comes from the `k`-th item.
pub proof fn law_vtable_entries_in_order(acc: Seq<TokV>, inv: InvocationV, first: Seq<crate::items::virt::ItemV>,
    second: Seq<crate::items::virt::ItemV>)
    ensures
        s_vtable_fields(acc, inv, first + second) == s_vtable_fields(s_vtable_fields(acc, inv, first), inv, second),
    decreases second.len(),
{
    if second.len() == 0 {
        assert(first + second =~= first);
    } else {
        assert((first + second).drop_last() =~= first + second.drop_last());
        assert((first + second).last() == second.last());
        law_vtable_entries_in_order(acc, inv, first, second.drop_last());
    }
}

/// A later virtual item's entry comes after those of the items declared
/// before it.
pub proof fn law_vtable_entry_appended(acc: Seq<TokV>, inv: InvocationV, list: Seq<crate::items::virt::ItemV>,
    x: crate::items::virt::ItemV)
    ensures
        s_vtable_fields(acc, inv, list.push(x)) == s_vtable_field(s_vtable_fields(acc, inv, list), inv, x),
        s_vtable_fields(acc, inv, seq![x] + list) == s_vtable_fields(s_vtable_field(acc, inv, x), inv, list),
{
    assert(list.push(x).drop_last() =~= list);
    law_vtable_entries_in_order(acc, inv, seq![x], list);
    assert(seq![x].drop_last() =~= Seq::<crate::items::virt::ItemV>::empty());
    assert(s_vtable_fields(acc, inv, seq![x]) == s_vtable_field(s_vtable_fields(acc, inv, seq![x].drop_last()), inv, x));
}

/// The generic parameters as declared, in angle brackets.
pub open spec fn params_tokens(inv: InvocationV) -> Seq<TokV> {
    seq![pn('<')] + span_of(inv.tokens, inv.class.generics.list) + seq![pn('>')]
}

/// `Copy` and `Clone` for a type `nm<args>` of the class carry the class's
/// generic parameters and its `where` clause, the same clause that the
/// class's structs print:
/// `impl<params> Copy for nm<args> where {}` and
/// `impl<params> Clone for nm<args> where { fn clone(&self) -> Self { *self } }`.
#[verifier::rlimit(30)]
#[verifier::spinoff_prover]
pub proof fn law_copy_impl_tokens(inv: InvocationV, nm: Seq<char>)
    ensures
        s_copy_impl(seq![], inv, nm) == seq![id("impl"@)] + params_tokens(inv)
            + seq![id("Copy"@), id("for"@), id(nm)] + inv.generic_args + where_tokens(inv)
            + seq![TokV::Open(Delim::Brace), TokV::Close(Delim::Brace), id("impl"@)] + params_tokens(inv)
            + seq![id("Clone"@), id("for"@), id(nm)] + inv.generic_args + where_tokens(inv)
            + seq![TokV::Open(Delim::Brace), id("fn"@), id("clone"@), TokV::Open(Delim::Paren), pn('&'), id("self"@),
                TokV::Close(Delim::Paren), pj('-'), pn('>'), id("Self"@), TokV::Open(Delim::Brace), pn('*'),
                id("self"@), TokV::Close(Delim::Brace), TokV::Close(Delim::Brace)],
{
    reveal(s_copy_impl);
    assert(s_copy_impl(seq![], inv, nm) =~= seq![id("impl"@)] + params_tokens(inv)
            + seq![id("Copy"@), id("for"@), id(nm)] + inv.generic_args + where_tokens(inv)
            + seq![TokV::Open(Delim::Brace), TokV::Close(Delim::Brace), id("impl"@)] + params_tokens(inv)
            + seq![id("Clone"@), id("for"@), id(nm)] + inv.generic_args + where_tokens(inv)
            + seq![TokV::Open(Delim::Brace), id("fn"@), id("clone"@), TokV::Open(Delim::Paren), pn('&'), id("self"@),
                TokV::Close(Delim::Paren), pj('-'), pn('>'), id("Self"@), TokV::Open(Delim::Brace), pn('*'),
                id("self"@), TokV::Close(Delim::Brace), TokV::Close(Delim::Brace)]);
}

/// The `Inherits` impl of a class carries the class's generic parameters
/// and its `where` clause:
/// `unsafe impl<params> crate::Inherits<Base> for Name<args> where {}`.
pub proof fn law_inherits_tokens(inv: InvocationV, b: Inherited)
    ensures
        crate::expand::s_inherits(seq![], inv, b) == seq![id("unsafe"@), id("impl"@)] + params_tokens(inv)
            + span_of(inv.tokens, inv.crate_path) + seq![pj(':'), pn(':'), id("Inherits"@), pn('<')]
            + span_of(inv.tokens, b.path) + seq![pn('>'), id("for"@)] + span_of(inv.tokens, inv.class.name)
            + inv.generic_args + where_tokens(inv) + seq![TokV::Open(Delim::Brace), TokV::Close(Delim::Brace)],
{
    assert(crate::expand::s_inherits(seq![], inv, b) =~= seq![id("unsafe"@), id("impl"@)] + params_tokens(inv)
            + span_of(inv.tokens, inv.crate_path) + seq![pj(':'), pn(':'), id("Inherits"@), pn('<')]
            + span_of(inv.tokens, b.path) + seq![pn('>'), id("for"@)] + span_of(inv.tokens, inv.class.name)
            + inv.generic_args + where_tokens(inv) + seq![TokV::Open(Delim::Brace), TokV::Close(Delim::Brace)]);
}

/// Every non-virtual item keeps its attributes and its visibility, a `use`
/// item as well as a field: a field prints as `attrs vis name: Type`, a
/// `use Type as name` as `attrs vis name: ::core::marker::PhantomData<Type>`.
pub proof fn law_non_virt_item_tokens(ts: Seq<TokV>, it: non_virt::Item)
    ensures
        s_non_virt_item(seq![], ts, it) == span_of(ts, it.attrs) + span_of(ts, it.vis) + match it.kind {
            non_virt::Kind::Field(f) => span_of(ts, f.name) + seq![pn(':')] + span_of(ts, f.ty),
            non_virt::Kind::Use(u) => span_of(ts, u.field) + seq![pn(':'), pj(':'), pn(':'), id("core"@), pj(':'),
                pn(':'), id("marker"@), pj(':'), pn(':'), id("PhantomData"@), pn('<')] + span_of(ts, u.what)
                + seq![pn('>')],
        },
{
    reveal(s_non_virt_item);
    assert(s_non_virt_item(seq![], ts, it) =~= span_of(ts, it.attrs) + span_of(ts, it.vis) + match it.kind {
            non_virt::Kind::Field(f) => span_of(ts, f.name) + seq![pn(':')] + span_of(ts, f.ty),
            non_virt::Kind::Use(u) => span_of(ts, u.field) + seq![pn(':'), pj(':'), pn(':'), id("core"@), pj(':'),
                pn(':'), id("marker"@), pj(':'), pn(':'), id("PhantomData"@), pn('<')] + span_of(ts, u.what)
                + seq![pn('>')],
        });
}

/// Token `k` of the span is the identifier `s`, outside every group and
/// angle bracket opened in the span before it.
pub open spec fn ident_at_top(ts: Seq<TokV>, span: Span, k: int, s: Seq<char>) -> bool {
    &&& span.start <= k < span.end
    &&& k < ts.len()
    &&& ts[k] == TokV::Ident(s)
    &&& crate::scan::walk(ts, span.start as int, k, 0, 0) == (0nat, 0nat)
}

/// `s` is an identifier of the span outside its groups and angle brackets.
pub open spec fn top_segment(ts: Seq<TokV>, span: Span, s: Seq<char>) -> bool {
    exists|k: int| #[trigger] ident_at_top(ts, span, k, s)
}

proof fn lemma_segments_at_top(ts: Seq<TokV>, span: Span, j: int, g: nat, a: nat, fresh: bool, acc: Seq<Seq<char>>)
    requires
        span.start <= j,
        span.end <= ts.len(),
        (g, a) == crate::scan::walk(ts, span.start as int, j, 0, 0),
        forall|i: int| 0 <= i < acc.len() ==> top_segment(ts, span, #[trigger] acc[i]),
    ensures
        forall|i: int| 0 <= i < crate::naming::segments_from(ts, j, span.end as int, g, a, fresh, acc).len()
            ==> top_segment(ts, span, #[trigger] crate::naming::segments_from(ts, j, span.end as int, g, a, fresh, acc)[i]),
    decreases span.end - j,
{
    let end = span.end as int;
    let st = span.start as int;
    if j >= end || j < 0 || j >= ts.len() {
    } else if g == 0 && a == 0 && crate::naming::arrow_at(ts, j, end) {
    } else if g == 0 && a == 0 && crate::naming::sep_at(ts, j, end) {
        crate::scan::lemma_walk_snoc(ts, st, j, 0, 0);
        crate::scan::lemma_walk_snoc(ts, st, j + 1, 0, 0);
        assert(crate::scan::walk_step(ts, j, g, a) == (g, a));
        assert(crate::scan::walk(ts, st, j + 1, 0, 0) == (g, a));
        assert(crate::scan::walk_step(ts, j + 1, g, a) == (g, a));
        assert(crate::scan::walk(ts, st, j + 2, 0, 0) == (g, a));
        assert(crate::naming::segments_from(ts, j, end, g, a, fresh, acc)
            == crate::naming::segments_from(ts, j + 2, end, g, a, true, acc));
        lemma_segments_at_top(ts, span, j + 2, g, a, true, acc);
    } else {
        crate::scan::lemma_walk_snoc(ts, st, j, 0, 0);
        let (g2, a2) = crate::scan::walk_step(ts, j, g, a);
        assert((g2, a2) == crate::scan::walk(ts, st, j + 1, 0, 0));
        match ts[j] {
            TokV::Ident(s) => if g == 0 && a == 0 && fresh {
                let acc2 = acc.push(s);
                assert(ident_at_top(ts, span, j, s));
                assert forall|i: int| 0 <= i < acc2.len() implies top_segment(ts, span, #[trigger] acc2[i]) by {
                    if i == acc.len() {
                        assert(ident_at_top(ts, span, j, acc2[i]));
                    } else {
                        assert(acc2[i] == acc[i]);
                    }
                }
                assert(crate::naming::segments_from(ts, j, end, g, a, fresh, acc)
                    == crate::naming::segments_from(ts, j + 1, end, g2, a2, false, acc2));
                lemma_segments_at_top(ts, span, j + 1, g2, a2, false, acc2);
            } else {
                assert(crate::naming::segments_from(ts, j, end, g, a, fresh, acc)
                    == crate::naming::segments_from(ts, j + 1, end, g2, a2, false, acc));
                lemma_segments_at_top(ts, span, j + 1, g2, a2, false, acc);
            },
            _ => {
                assert(crate::naming::segments_from(ts, j, end, g, a, fresh, acc)
                    == crate::naming::segments_from(ts, j + 1, end, g2, a2, false, acc));
                lemma_segments_at_top(ts, span, j + 1, g2, a2, false, acc);
            },
        }
    }
}

/// The segments of a path that name an inherited class's field are the
/// path's own: each is an identifier of the path that stands outside every
/// group and angle bracket, so that the identifiers in generic arguments,
/// as in `List<std::string::String>`, name no segment.
pub proof fn law_segments_at_top_level(ts: Seq<TokV>, span: Span)
    ensures
        forall|i: int| 0 <= i < crate::naming::path_segments(ts, span).len()
            ==> top_segment(ts, span, #[trigger] crate::naming::path_segments(ts, span)[i]),
{
    if span_ok(ts, span) {
        lemma_segments_at_top(ts, span, span.start as int, 0, 0, true, seq![]);
    }
}

} // verus!
