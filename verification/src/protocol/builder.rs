//! Building the element tree of a message from the syntax definitions.
//!
//! A definition becomes an element whose children are built from the
//! definition's children, each repeated as often as its minimum count says
//! (at least once); preset values and valid-value sets are applied to the
//! finished subtree. A definition that refers back to itself is refused.

use vstd::prelude::*;
use crate::error::{ErrorView, HbciError, HbciErrorKind, HbciResult};
use crate::protocol::message::{
    find, protocol_error, replace_at, str_views, ElementView, HbciMessage, SyntaxElement,
    SyntaxElementKind,
};
use crate::protocol::model::{
    DefinitionKind, ProtocolSyntax, SyntaxChild, SyntaxChildKind, SyntaxDefinition,
    SyntaxValidSet, SyntaxValue,
};
use crate::gv_result::status::clone_strings;
use crate::text::{append, char_len, concat, decimal, owned, int_error_string, int_error_text, parse_int, parse_usize_with_kind, push_char, push_decimal, str_eq, IntErrorKind};
use crate::tools::opt_str_view;

verus! {

// ---------------------------------------------------------------------------
// What is built
// ---------------------------------------------------------------------------

/// The error for an occurrence attribute that is not a number.
pub open spec fn attr_error(attr: Seq<char>, value: Seq<char>, k: IntErrorKind) -> ErrorView {
    ErrorView {
        kind: HbciErrorKind::Protocol,
        message: "invalid protocol "@ + attr + " value: "@ + value,
        source: Some(int_error_text(k)),
    }
}

/// An occurrence attribute as a number; `default` where it is absent.
pub open spec fn occurrence_attr(v: Option<String>, default: nat, attr: Seq<char>) -> Result<nat, ErrorView> {
    match v {
        None => Ok(default),
        Some(s) => match parse_int(s@, 0, usize::MAX as int) {
            Ok(n) => Ok(n as nat),
            Err(k) => Err(attr_error(attr, s@, k)),
        },
    }
}

/// The name of the `index`-th repetition of an element.
pub open spec fn with_counter(name: Seq<char>, index: nat) -> Seq<char> {
    if index == 0 {
        name
    } else {
        name + "_"@ + decimal(index + 1)
    }
}

/// The path of the `index`-th repetition of `name` below `parent`.
pub open spec fn path_with_counter(parent: Option<Seq<char>>, name: Seq<char>, index: nat) -> Seq<char> {
    match parent {
        Some(p) => if p.len() > 0 {
            p + "."@ + with_counter(name, index)
        } else {
            with_counter(name, index)
        },
        None => with_counter(name, index),
    }
}

/// A new element: no value, no valid values, no children.
pub open spec fn fresh_view(
    kind: SyntaxElementKind,
    data_type: Seq<char>,
    name: Seq<char>,
    parent: Option<Seq<char>>,
    occurrence: (nat, nat, nat),
    needs_request_tag: bool,
) -> ElementView {
    ElementView {
        kind,
        data_type,
        name,
        path: path_with_counter(parent, name, occurrence.0),
        occurrence_index: occurrence.0,
        min_num: occurrence.1,
        max_num: occurrence.2,
        needs_request_tag,
        requested: false,
        value: None,
        valid_values: Seq::empty(),
        children: Seq::empty(),
    }
}

pub open spec fn element_kind(k: DefinitionKind) -> SyntaxElementKind {
    match k {
        DefinitionKind::Msg => SyntaxElementKind::Msg,
        DefinitionKind::Seg => SyntaxElementKind::Seg,
        DefinitionKind::Deg => SyntaxElementKind::Deg,
        DefinitionKind::Sf => SyntaxElementKind::Sf,
    }
}

/// The kind of definition that a child of kind `k` refers to.
pub open spec fn referenced_kind(k: SyntaxChildKind) -> DefinitionKind {
    match k {
        SyntaxChildKind::Seg => DefinitionKind::Seg,
        SyntaxChildKind::Sf => DefinitionKind::Sf,
        _ => DefinitionKind::Deg,
    }
}

pub open spec fn kind_text(k: DefinitionKind) -> Seq<char> {
    match k {
        DefinitionKind::Deg => "Deg"@,
        DefinitionKind::Seg => "Seg"@,
        DefinitionKind::Sf => "Sf"@,
        DefinitionKind::Msg => "Msg"@,
    }
}

pub open spec fn recursion_error(def_type: Seq<char>) -> ErrorView {
    protocol_error("message syntax definition "@ + def_type + " is recursive"@)
}

/// How often a child is repeated: its minimum count, at least once.
pub open spec fn child_count(c: SyntaxChild) -> nat {
    match occurrence_attr(c.min_num, 1, "minnum"@) {
        Ok(n) => if n == 0 {
            1
        } else {
            n
        },
        Err(_) => 0,
    }
}

/// Setting the value at path `p` below `e`.
pub open spec fn set_value_result(e: ElementView, p: Seq<char>, v: Seq<char>) -> Result<ElementView, ErrorView> {
    match find(e, p) {
        None => Err(protocol_error("message element path "@ + p + " is not defined"@)),
        Some(x) => if x.kind == SyntaxElementKind::De {
            Ok(replace_at(e, p, ElementView { value: Some(v), ..x }))
        } else if v == "requested"@ {
            Ok(replace_at(e, p, ElementView { requested: true, ..x }))
        } else {
            Err(ErrorView {
                kind: HbciErrorKind::InvalidArgument,
                message: "message element path "@ + p + " does not refer to a data element"@,
                source: None,
            })
        },
    }
}

/// Adding allowed values to the data element at path `p` below `e`.
pub open spec fn add_valids_result(e: ElementView, p: Seq<char>, vs: Seq<Seq<char>>) -> Result<ElementView, ErrorView> {
    match find(e, p) {
        None => Err(protocol_error("message valid-values path "@ + p + " is not defined"@)),
        Some(x) => if x.kind == SyntaxElementKind::De {
            Ok(replace_at(e, p, ElementView { valid_values: x.valid_values + vs, ..x }))
        } else {
            Err(protocol_error("message valid-values path "@ + p + " does not refer to a data element"@))
        },
    }
}

/// The preset values from position `i` on, applied in order.
pub open spec fn apply_values(e: ElementView, vs: Seq<SyntaxValue>, i: int) -> Result<ElementView, ErrorView>
    decreases vs.len() - i,
{
    if i < 0 || i >= vs.len() {
        Ok(e)
    } else {
        match set_value_result(e, e.path + "."@ + vs[i].path@, vs[i].value@) {
            Ok(e2) => apply_values(e2, vs, i + 1),
            Err(x) => Err(x),
        }
    }
}

/// The valid-value sets from position `i` on, applied in order.
pub open spec fn apply_valids(e: ElementView, vs: Seq<SyntaxValidSet>, i: int) -> Result<ElementView, ErrorView>
    decreases vs.len() - i,
{
    if i < 0 || i >= vs.len() {
        Ok(e)
    } else {
        match add_valids_result(e, e.path + "."@ + vs[i].path@, str_views(vs[i].values@)) {
            Ok(e2) => apply_valids(e2, vs, i + 1),
            Err(x) => Err(x),
        }
    }
}

/// The element of a definition once its children are known: preset values,
/// then valid-value sets, are applied.
pub open spec fn finish_def(e: ElementView, def: SyntaxDefinition, children: Result<Seq<ElementView>, ErrorView>) -> Result<ElementView, ErrorView> {
    match children {
        Ok(cs) => match apply_values(ElementView { children: cs, ..e }, def.values@, 0) {
            Ok(e2) => apply_valids(e2, def.valids@, 0),
            Err(x) => Err(x),
        },
        Err(x) => Err(x),
    }
}

/// The element built for definition `def`, used as type `def_type` and
/// named `name`, below `parent`; `stack` holds the definitions being built
/// around it, and `fuel` bounds the depth.
pub open spec fn build_def(
    defs: Map<Seq<char>, SyntaxDefinition>,
    def: SyntaxDefinition,
    def_type: Seq<char>,
    name: Seq<char>,
    parent: Option<Seq<char>>,
    occurrence: (nat, nat, nat),
    stack: Seq<Seq<char>>,
    fuel: nat,
) -> Result<ElementView, ErrorView>
    decreases fuel, 0int, 0int, 0int,
{
    if stack.contains(def_type) || fuel == 0 {
        Err(recursion_error(def_type))
    } else {
        let e = fresh_view(element_kind(def.kind), def_type, name, parent, occurrence, def.needs_request_tag);
        finish_def(
            e,
            def,
            build_children(defs, def.children@, 0, 0, e.path, stack.push(def_type), (fuel - 1) as nat, Seq::empty()),
        )
    }
}

/// The children built from the `j`-th repetition of child `i` on, after `acc`.
pub open spec fn build_children(
    defs: Map<Seq<char>, SyntaxDefinition>,
    cs: Seq<SyntaxChild>,
    i: int,
    j: nat,
    parent_path: Seq<char>,
    stack: Seq<Seq<char>>,
    fuel: nat,
    acc: Seq<ElementView>,
) -> Result<Seq<ElementView>, ErrorView>
    decreases fuel, 2int, cs.len() - i, child_count(cs[i]) - j,
{
    if i < 0 || i >= cs.len() {
        Ok(acc)
    } else {
        match occurrence_attr(cs[i].min_num, 1, "minnum"@) {
            Err(x) => Err(x),
            Ok(_) => if j >= child_count(cs[i]) {
                build_children(defs, cs, i + 1, 0, parent_path, stack, fuel, acc)
            } else {
                match build_child(defs, cs[i], parent_path, j, stack, fuel) {
                    Ok(c) => build_children(defs, cs, i, j + 1, parent_path, stack, fuel, acc.push(c)),
                    Err(x) => Err(x),
                }
            },
        }
    }
}

/// The `index`-th repetition of child `c` below `parent_path`.
pub open spec fn build_child(
    defs: Map<Seq<char>, SyntaxDefinition>,
    c: SyntaxChild,
    parent_path: Seq<char>,
    index: nat,
    stack: Seq<Seq<char>>,
    fuel: nat,
) -> Result<ElementView, ErrorView>
    decreases fuel, 1int, 0int, 0int,
{
    let name = match c.name {
        Some(n) => n@,
        None => c.data_type@,
    };
    let t = c.data_type@;
    match occurrence_attr(c.min_num, 1, "minnum"@) {
        Err(x) => Err(x),
        Ok(mn) => match occurrence_attr(c.max_num, 1, "maxnum"@) {
            Err(x) => Err(x),
            Ok(mx) => match c.kind {
                SyntaxChildKind::De => Ok(
                    fresh_view(SyntaxElementKind::De, t, name, Some(parent_path), (index, mn, mx), false),
                ),
                SyntaxChildKind::EntityRef => Err(
                    protocol_error("message syntax still contains unexpanded entity reference "@ + t),
                ),
                _ => if !defs.contains_key(t) {
                    Err(protocol_error("syntax definition "@ + t + " is not defined"@))
                } else if defs[t].kind != referenced_kind(c.kind) {
                    Err(
                        protocol_error(
                            "syntax definition "@ + t + " has kind "@ + kind_text(defs[t].kind)
                                + ", expected "@ + kind_text(referenced_kind(c.kind)),
                        ),
                    )
                } else {
                    build_def(defs, defs[t], t, name, Some(parent_path), (index, mn, mx), stack, fuel)
                },
            },
        },
    }
}

/// The message built for the definition `name`.
pub open spec fn built_message(defs: Map<Seq<char>, SyntaxDefinition>, name: Seq<char>) -> Result<ElementView, ErrorView> {
    if !defs.contains_key(name) {
        Err(protocol_error("message definition "@ + name + " is not defined"@))
    } else if defs[name].kind != DefinitionKind::Msg {
        Err(ErrorView {
            kind: HbciErrorKind::InvalidArgument,
            message: "definition "@ + name + " is not a message definition"@,
            source: None,
        })
    } else {
        build_def(defs, defs[name], name, name, None, (0, 1, 1), Seq::empty(), defs.len())
    }
}

pub open spec fn element_result(r: HbciResult<SyntaxElement>) -> Result<ElementView, ErrorView> {
    match r {
        Ok(e) => Ok(e@),
        Err(x) => Err(x@),
    }
}

pub open spec fn message_result(r: HbciResult<HbciMessage>) -> Result<ElementView, ErrorView> {
    match r {
        Ok(m) => Ok(m@),
        Err(x) => Err(x@),
    }
}

// ---------------------------------------------------------------------------
// Building
// ---------------------------------------------------------------------------

fn occurrence_attr_exec(value: &Option<String>, default: usize, attr: &str) -> (r: HbciResult<usize>)
    ensures
        match occurrence_attr(*value, default as nat, attr@) {
            Ok(n) => r matches Ok(x) && x as nat == n,
            Err(e) => r matches Err(x) && x@ == e,
        },
{
    match value {
        None => Ok(default),
        Some(s) => match parse_usize_with_kind(s.as_str()) {
            Ok(n) => Ok(n),
            Err(k) => {
                let mut m = concat("invalid protocol ", attr);
                append(&mut m, " value: ");
                append(&mut m, s.as_str());
                let src = int_error_string(k);
                Err(HbciError::with_source(HbciErrorKind::Protocol, m.as_str(), src.as_str()))
            },
        },
    }
}

fn with_counter_exec(name: &str, index: usize) -> (r: String)
    requires
        index < usize::MAX,
    ensures
        r@ == with_counter(name@, index as nat),
{
    let mut r = owned(name);
    proof {
        reveal_strlit("_");
    }
    if index > 0 {
        push_char(&mut r, '_');
        push_decimal(&mut r, (index + 1) as u64);
        assert(r@ =~= with_counter(name@, index as nat));
    }
    r
}

fn path_with_counter_exec(parent: Option<&str>, name: &str, index: usize) -> (r: String)
    requires
        index < usize::MAX,
    ensures
        r@ == path_with_counter(opt_str_view(parent), name@, index as nat),
{
    let last = with_counter_exec(name, index);
    match parent {
        Some(p) => {
            if char_len(p) > 0 {
                let mut r = owned(p);
                push_char(&mut r, '.');
                append(&mut r, last.as_str());
                proof {
                    reveal_strlit(".");
                }
                assert(r@ =~= p@ + "."@ + last@);
                r
            } else {
                last
            }
        },
        None => last,
    }
}

fn element_kind_exec(k: DefinitionKind) -> (r: SyntaxElementKind)
    ensures
        r == element_kind(k),
{
    match k {
        DefinitionKind::Msg => SyntaxElementKind::Msg,
        DefinitionKind::Seg => SyntaxElementKind::Seg,
        DefinitionKind::Deg => SyntaxElementKind::Deg,
        DefinitionKind::Sf => SyntaxElementKind::Sf,
    }
}

fn kind_text_exec(k: DefinitionKind) -> (r: &'static str)
    ensures
        r@ == kind_text(k),
{
    match k {
        DefinitionKind::Deg => "Deg",
        DefinitionKind::Seg => "Seg",
        DefinitionKind::Sf => "Sf",
        DefinitionKind::Msg => "Msg",
    }
}

fn on_stack(stack: &Vec<String>, def_type: &str) -> (b: bool)
    ensures
        b == str_views(stack@).contains(def_type@),
{
    let mut i: usize = 0;
    while i < stack.len()
        invariant
            i <= stack@.len(),
            forall|j: int| 0 <= j < i ==> str_views(stack@)[j] != def_type@,
        decreases stack.len() - i,
    {
        if str_eq(stack[i].as_str(), def_type) {
            assert(str_views(stack@)[i as int] == def_type@);
            return true;
        }
        i += 1;
    }
    assert(!str_views(stack@).contains(def_type@)) by {
        if str_views(stack@).contains(def_type@) {
            let j = choose|j: int| 0 <= j < str_views(stack@).len() && str_views(stack@)[j] == def_type@;
            assert(str_views(stack@)[j] != def_type@);
        }
    }
    false
}

fn build_definition_element(
    syntax: &ProtocolSyntax,
    def: &SyntaxDefinition,
    def_type: &str,
    name: &str,
    parent: Option<&str>,
    occurrence: (usize, usize, usize),
    stack: &Vec<String>,
    fuel: usize,
) -> (r: HbciResult<SyntaxElement>)
    requires
        occurrence.0 < usize::MAX,
    ensures
        element_result(r) == build_def(
            syntax.defs(),
            *def,
            def_type@,
            name@,
            opt_str_view(parent),
            (occurrence.0 as nat, occurrence.1 as nat, occurrence.2 as nat),
            str_views(stack@),
            fuel as nat,
        ),
    decreases fuel, 1int,
{
    let ghost defs = syntax.defs();
    let ghost goal = build_def(
        defs,
        *def,
        def_type@,
        name@,
        opt_str_view(parent),
        (occurrence.0 as nat, occurrence.1 as nat, occurrence.2 as nat),
        str_views(stack@),
        fuel as nat,
    );
    if on_stack(stack, def_type) || fuel == 0 {
        let mut m = concat("message syntax definition ", def_type);
        append(&mut m, " is recursive");
        return Err(HbciError::new(HbciErrorKind::Protocol, m.as_str()));
    }
    let path = path_with_counter_exec(parent, name, occurrence.0);
    let mut element = SyntaxElement::fresh(
        element_kind_exec(def.kind),
        def_type.to_string(),
        name.to_string(),
        path,
        occurrence.0,
        occurrence.1,
        occurrence.2,
        def.needs_request_tag,
    );
    let ghost base = element@;
    let mut inner = clone_strings(stack);
    inner.push(def_type.to_string());
    proof {
        assert(str_views(inner@) =~= str_views(stack@).push(def_type@));
    }
    let ghost iv = str_views(inner@);
    let ghost cs = def.children@;
    let f1: usize = fuel - 1;
    assert(goal == finish_def(base, *def, build_children(defs, cs, 0, 0, base.path, iv, f1 as nat, Seq::empty())));
    let n = def.children.len();
    let mut i: usize = 0;
    while i < n
        invariant
            goal == build_def(
                    defs,
                    *def,
                    def_type@,
                    name@,
                    opt_str_view(parent),
                    (occurrence.0 as nat, occurrence.1 as nat, occurrence.2 as nat),
                    str_views(stack@),
                    fuel as nat,
                ),
            n == cs.len(),
            cs == def.children@,
            i <= n,
            defs == syntax.defs(),
            iv == str_views(inner@),
            f1 as int == fuel - 1,
            element@ == (ElementView { children: element@.children, ..base }),
            goal == finish_def(base, *def, build_children(defs, cs, i as int, 0, base.path, iv, f1 as nat, element@.children)),
        decreases n - i,
    {
        let child = &def.children[i];
        let count0 = match occurrence_attr_exec(&child.min_num, 1, "minnum") {
            Ok(c) => c,
            Err(e) => {
                assert(build_children(defs, cs, i as int, 0, base.path, iv, f1 as nat, element@.children) == Err::<Seq<ElementView>, ErrorView>(e@));
                assert(goal == Err::<ElementView, ErrorView>(e@));
                return Err(e);
            },
        };
        let count: usize = if count0 == 0 { 1 } else { count0 };
        assert(count as nat == child_count(cs[i as int]));
        let mut j: usize = 0;
        while j < count
            invariant
                goal == build_def(
                        defs,
                        *def,
                        def_type@,
                        name@,
                        opt_str_view(parent),
                        (occurrence.0 as nat, occurrence.1 as nat, occurrence.2 as nat),
                        str_views(stack@),
                        fuel as nat,
                    ),
                n == cs.len(),
                cs == def.children@,
                i < n,
                *child == cs[i as int],
                count as nat == child_count(cs[i as int]),
                occurrence_attr(cs[i as int].min_num, 1, "minnum"@) is Ok,
                j <= count,
                defs == syntax.defs(),
                iv == str_views(inner@),
                f1 as int == fuel - 1,
                element@ == (ElementView { children: element@.children, ..base }),
                goal == finish_def(base, *def, build_children(defs, cs, i as int, j as nat, base.path, iv, f1 as nat, element@.children)),
            decreases count - j,
        {
            let c = match build_child_element(syntax, child, element.path(), j, &inner, f1) {
                Ok(c) => c,
                Err(e) => {
                    assert(build_children(defs, cs, i as int, j as nat, base.path, iv, f1 as nat, element@.children) == Err::<Seq<ElementView>, ErrorView>(e@));
                    return Err(e);
                },
            };
            let ghost before = element@.children;
            element.push_child(c);
            assert(element@.children == before.push(c@));
            j += 1;
        }
        i += 1;
    }
    let ghost e0 = element@;
    assert(goal == finish_def(base, *def, Ok(element@.children)));
    assert(e0 == (ElementView { children: element@.children, ..base }));
    let ghost vs = def.values@;
    let mut k: usize = 0;
    while k < def.values.len()
        invariant
            goal == build_def(
                    defs,
                    *def,
                    def_type@,
                    name@,
                    opt_str_view(parent),
                    (occurrence.0 as nat, occurrence.1 as nat, occurrence.2 as nat),
                    str_views(stack@),
                    fuel as nat,
                ),
            defs == syntax.defs(),
            vs == def.values@,
            k <= vs.len(),
            match apply_values(e0, vs, 0) {
                Ok(e2) => goal == apply_valids(e2, def.valids@, 0),
                Err(x) => goal == Err::<ElementView, ErrorView>(x),
            },
            apply_values(e0, vs, 0) == apply_values(element@, vs, k as int),
        decreases vs.len() - k,
    {
        let v = &def.values[k];
        let ghost before = element@;
        let mut p = owned_path(&element);
        push_char(&mut p, '.');
        append(&mut p, v.path.as_str());
        let ghost pv = before.path + "."@ + vs[k as int].path@;
        proof {
            reveal_strlit(".");
        }
        assert(p@ =~= pv);
        let value = owned(v.value.as_str());
        match element.set_value(p.as_str(), value) {
            Ok(()) => {
                assert(set_value_result(before, pv, vs[k as int].value@) == Ok::<ElementView, ErrorView>(element@));
            },
            Err(e) => {
                assert(set_value_result(before, pv, vs[k as int].value@) == Err::<ElementView, ErrorView>(e@));
                assert(apply_values(before, vs, k as int) == Err::<ElementView, ErrorView>(e@));
                assert(goal == Err::<ElementView, ErrorView>(e@));
                return Err(e);
            },
        }
        k += 1;
    }
    assert(apply_values(e0, vs, 0) == Ok::<ElementView, ErrorView>(element@));
    let ghost e1 = element@;
    let ghost ws = def.valids@;
    let mut k: usize = 0;
    while k < def.valids.len()
        invariant
            goal == build_def(
                    defs,
                    *def,
                    def_type@,
                    name@,
                    opt_str_view(parent),
                    (occurrence.0 as nat, occurrence.1 as nat, occurrence.2 as nat),
                    str_views(stack@),
                    fuel as nat,
                ),
            defs == syntax.defs(),
            ws == def.valids@,
            k <= ws.len(),
            goal == apply_valids(e1, ws, 0),
            apply_valids(e1, ws, 0) == apply_valids(element@, ws, k as int),
        decreases ws.len() - k,
    {
        let w = &def.valids[k];
        let ghost before = element@;
        let mut p = owned_path(&element);
        push_char(&mut p, '.');
        append(&mut p, w.path.as_str());
        let ghost pv = before.path + "."@ + ws[k as int].path@;
        proof {
            reveal_strlit(".");
        }
        assert(p@ =~= pv);
        let values = clone_strings(&w.values);
        match element.add_valid_values(p.as_str(), values) {
            Ok(()) => {
                assert(add_valids_result(before, pv, str_views(ws[k as int].values@)) == Ok::<ElementView, ErrorView>(element@));
            },
            Err(e) => {
                assert(add_valids_result(before, pv, str_views(ws[k as int].values@)) == Err::<ElementView, ErrorView>(e@));
                assert(apply_valids(before, ws, k as int) == Err::<ElementView, ErrorView>(e@));
                assert(goal == Err::<ElementView, ErrorView>(e@));
                return Err(e);
            },
        }
        k += 1;
    }
    Ok(element)
}

fn owned_path(e: &SyntaxElement) -> (r: String)
    ensures
        r@ == e@.path,
{
    e.path().to_string()
}

fn build_child_element(
    syntax: &ProtocolSyntax,
    child: &SyntaxChild,
    parent_path: &str,
    index: usize,
    stack: &Vec<String>,
    fuel: usize,
) -> (r: HbciResult<SyntaxElement>)
    requires
        index < usize::MAX,
    ensures
        element_result(r) == build_child(syntax.defs(), *child, parent_path@, index as nat, str_views(stack@), fuel as nat),
    decreases fuel, 2int,
{
    let name: &str = match &child.name {
        Some(n) => n.as_str(),
        None => child.data_type.as_str(),
    };
    let min_num = match occurrence_attr_exec(&child.min_num, 1, "minnum") {
        Ok(n) => n,
        Err(e) => {
            return Err(e);
        },
    };
    let max_num = match occurrence_attr_exec(&child.max_num, 1, "maxnum") {
        Ok(n) => n,
        Err(e) => {
            return Err(e);
        },
    };
    match child.kind {
        SyntaxChildKind::De => {
            let path = path_with_counter_exec(Some(parent_path), name, index);
            Ok(SyntaxElement::fresh(
                SyntaxElementKind::De,
                child.data_type.clone(),
                name.to_string(),
                path,
                index,
                min_num,
                max_num,
                false,
            ))
        },
        SyntaxChildKind::EntityRef => {
            let m = concat("message syntax still contains unexpanded entity reference ", child.data_type.as_str());
            Err(HbciError::new(HbciErrorKind::Protocol, m.as_str()))
        },
        _ => {
            let expected = match child.kind {
                SyntaxChildKind::Seg => DefinitionKind::Seg,
                SyntaxChildKind::Sf => DefinitionKind::Sf,
                _ => DefinitionKind::Deg,
            };
            match syntax.definition(child.data_type.as_str()) {
                None => {
                    let mut m = concat("syntax definition ", child.data_type.as_str());
                    append(&mut m, " is not defined");
                    Err(HbciError::new(HbciErrorKind::Protocol, m.as_str()))
                },
                Some(def) => {
                    if def.kind != expected {
                        let mut m = concat("syntax definition ", child.data_type.as_str());
                        append(&mut m, " has kind ");
                        append(&mut m, kind_text_exec(def.kind));
                        append(&mut m, ", expected ");
                        append(&mut m, kind_text_exec(expected));
                        Err(HbciError::new(HbciErrorKind::Protocol, m.as_str()))
                    } else {
                        build_definition_element(
                            syntax,
                            def,
                            child.data_type.as_str(),
                            name,
                            Some(parent_path),
                            (index, min_num, max_num),
                            stack,
                            fuel,
                        )
                    }
                },
            }
        },
    }
}

impl HbciMessage {
    /// Builds the message defined as `name`, with every element its
    /// definitions give and their preset values and valid-value sets.
    pub fn from_syntax(syntax: &ProtocolSyntax, name: &str) -> (r: HbciResult<HbciMessage>)
        ensures
            message_result(r) == built_message(syntax.defs(), name@),
    {
        let fuel = syntax.definitions_len();
        match syntax.definition(name) {
            None => {
                let mut m = concat("message definition ", name);
                append(&mut m, " is not defined");
                Err(HbciError::new(HbciErrorKind::Protocol, m.as_str()))
            },
            Some(def) => {
                if def.kind != DefinitionKind::Msg {
                    let mut m = concat("definition ", name);
                    append(&mut m, " is not a message definition");
                    return Err(HbciError::new(HbciErrorKind::InvalidArgument, m.as_str()));
                }
                let stack: Vec<String> = Vec::new();
                assert(str_views(stack@) =~= Seq::<Seq<char>>::empty());
                assert(opt_str_view(None::<&str>) == None::<Seq<char>>);
                match build_definition_element(syntax, def, name, name, None, (0, 1, 1), &stack, fuel) {
                    Ok(root) => Ok(HbciMessage::from_root(root)),
                    Err(e) => Err(e),
                }
            },
        }
    }
}

} // verus!
