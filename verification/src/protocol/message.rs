//! Messages as trees of syntax elements: built from the syntax definitions,
//! filled by element path, and rendered to wire syntax.

use vstd::prelude::*;
use crate::error::{ErrorView, HbciError, HbciErrorKind, HbciResult};
use crate::protocol::wire::{quote, quote_data_element};
use crate::strmap::{text_view, StrMap};
use crate::text::{append, byte_len, chars_of, concat, decimal, push_char, push_decimal, str_eq, string_of, utf8_len};

verus! {

broadcast use vstd::std_specs::vec::axiom_vec_decreases_to_view;

/// What an element of a message is.
#[derive(Debug, Clone, Copy, PartialEq, Eq, Structural)]
pub enum SyntaxElementKind {
    Msg,
    Seg,
    Deg,
    De,
    Sf,
}

/// One element of a message tree.
#[derive(Debug)]
pub struct SyntaxElement {
    kind: SyntaxElementKind,
    data_type: String,
    name: String,
    path: String,
    occurrence_index: usize,
    min_num: usize,
    max_num: usize,
    needs_request_tag: bool,
    requested: bool,
    value: Option<String>,
    valid_values: Vec<String>,
    children: Vec<SyntaxElement>,
}

/// The abstract content of an element and its subtree.
pub ghost struct ElementView {
    pub kind: SyntaxElementKind,
    pub data_type: Seq<char>,
    pub name: Seq<char>,
    pub path: Seq<char>,
    pub occurrence_index: nat,
    pub min_num: nat,
    pub max_num: nat,
    pub needs_request_tag: bool,
    pub requested: bool,
    pub value: Option<Seq<char>>,
    pub valid_values: Seq<Seq<char>>,
    pub children: Seq<ElementView>,
}

pub open spec fn opt_view(o: Option<String>) -> Option<Seq<char>> {
    match o {
        Some(s) => Some(s@),
        None => None,
    }
}

pub open spec fn str_views(v: Seq<String>) -> Seq<Seq<char>> {
    v.map_values(|s: String| s@)
}

pub closed spec fn element_view(e: SyntaxElement) -> ElementView
    decreases e, 1int,
{
    ElementView {
        kind: e.kind,
        data_type: e.data_type@,
        name: e.name@,
        path: e.path@,
        occurrence_index: e.occurrence_index as nat,
        min_num: e.min_num as nat,
        max_num: e.max_num as nat,
        needs_request_tag: e.needs_request_tag,
        requested: e.requested,
        value: opt_view(e.value),
        valid_values: str_views(e.valid_values@),
        children: element_views(e.children@, 0),
    }
}

/// Views of the elements from position `i` on.
pub closed spec fn element_views(cs: Seq<SyntaxElement>, i: int) -> Seq<ElementView>
    decreases cs, cs.len() - i,
{
    if i < 0 || i >= cs.len() {
        seq![]
    } else {
        seq![element_view(cs[i])] + element_views(cs, i + 1)
    }
}

proof fn lemma_element_views(cs: Seq<SyntaxElement>, i: int)
    requires
        0 <= i <= cs.len(),
    ensures
        element_views(cs, i).len() == cs.len() - i,
        forall|j: int| i <= j < cs.len() ==> element_views(cs, i)[j - i] == element_view(cs[j]),
    decreases cs.len() - i,
{
    if i < cs.len() {
        lemma_element_views(cs, i + 1);
    }
}

pub proof fn lemma_views_of(cs: Seq<SyntaxElement>)
    ensures
        element_views(cs, 0).len() == cs.len(),
        forall|j: int| 0 <= j < cs.len() ==> #[trigger] element_views(cs, 0)[j] == element_view(cs[j]),
{
    lemma_element_views(cs, 0);
}

impl View for SyntaxElement {
    type V = ElementView;

    open spec fn view(&self) -> ElementView {
        element_view(*self)
    }
}

proof fn lemma_view_fields(e: SyntaxElement)
    ensures
        e@.kind == e.kind,
        e@.data_type == e.data_type@,
        e@.name == e.name@,
        e@.path == e.path@,
        e@.occurrence_index == e.occurrence_index,
        e@.min_num == e.min_num,
        e@.max_num == e.max_num,
        e@.needs_request_tag == e.needs_request_tag,
        e@.requested == e.requested,
        e@.value == opt_view(e.value),
        e@.valid_values == str_views(e.valid_values@),
        e@.children.len() == e.children@.len(),
        forall|j: int| 0 <= j < e.children@.len() ==> #[trigger] e@.children[j] == e.children@[j]@,
{
    lemma_views_of(e.children@);
}

// ---------------------------------------------------------------------------
// Lookup and update by path
// ---------------------------------------------------------------------------

/// The first element, in pre-order, whose path is `p`.
pub open spec fn find(e: ElementView, p: Seq<char>) -> Option<ElementView>
    decreases e, 0int,
{
    if e.path == p {
        Some(e)
    } else {
        find_in(e.children, 0, p)
    }
}

pub open spec fn find_in(cs: Seq<ElementView>, i: int, p: Seq<char>) -> Option<ElementView>
    decreases cs, cs.len() - i,
{
    if i < 0 || i >= cs.len() {
        None
    } else {
        match find(cs[i], p) {
            Some(x) => Some(x),
            None => find_in(cs, i + 1, p),
        }
    }
}

/// `e` with the first element whose path is `p` replaced by `x`.
pub open spec fn replace_at(e: ElementView, p: Seq<char>, x: ElementView) -> ElementView
    decreases e, 0int,
{
    if e.path == p {
        x
    } else {
        ElementView { children: replace_in(e.children, 0, p, x), ..e }
    }
}

pub open spec fn replace_in(cs: Seq<ElementView>, i: int, p: Seq<char>, x: ElementView) -> Seq<
    ElementView,
>
    decreases cs, cs.len() - i,
{
    if i < 0 || i >= cs.len() {
        cs
    } else if find(cs[i], p) is Some {
        cs.update(i, replace_at(cs[i], p, x))
    } else {
        replace_in(cs, i + 1, p, x)
    }
}

impl SyntaxElement {
    /// Whether an element of this subtree seen the path.
    fn has_path(&self, path: &str) -> (b: bool)
        ensures
            b == (find(self@, path@) is Some),
        decreases *self, 0int,
    {
        proof {
            lemma_view_fields(*self);
        }
        if str_eq(self.path.as_str(), path) {
            return true;
        }
        let mut i: usize = 0;
        while i < self.children.len()
            invariant
                i <= self.children@.len(),
                self@.children.len() == self.children@.len(),
                forall|j: int| 0 <= j < self.children@.len() ==> #[trigger] self@.children[j] == self.children@[j]@,
                self@.path != path@,
                find(self@, path@) == find_in(self@.children, i as int, path@),
            decreases self.children.len() - i,
        {
            assert(decreases_to!(*self => self.children@[i as int]));
            if self.children[i].has_path(path) {
                return true;
            }
            i += 1;
        }
        false
    }

    /// The first element of this subtree, in pre-order, whose path is `path`.
    pub fn element(&self, path: &str) -> (r: Option<&SyntaxElement>)
        ensures
            r matches Some(x) ==> find(self@, path@) == Some(x@),
            r is None ==> find(self@, path@) is None,
        decreases *self, 1int,
    {
        proof {
            lemma_view_fields(*self);
        }
        if str_eq(self.path.as_str(), path) {
            return Some(self);
        }
        let mut i: usize = 0;
        while i < self.children.len()
            invariant
                i <= self.children@.len(),
                self@.children.len() == self.children@.len(),
                forall|j: int| 0 <= j < self.children@.len() ==> #[trigger] self@.children[j] == self.children@[j]@,
                self@.path != path@,
                find(self@, path@) == find_in(self@.children, i as int, path@),
            decreases self.children.len() - i,
        {
            assert(decreases_to!(*self => self.children@[i as int]));
            match self.children[i].element(path) {
                Some(x) => {
                    return Some(x);
                },
                None => {},
            }
            i += 1;
        }
        None
    }
}

/// A change to one element.
pub enum ElementUpdate {
    /// Sets the value of a data element, or marks another element as
    /// requested when the value is `requested`.
    Value(String),
    /// Adds allowed values to a data element.
    ValidValues(Vec<String>),
}

/// The element after the change, or `None` when the change does not apply to it.
pub open spec fn update_result(x: ElementView, u: ElementUpdate) -> Option<ElementView> {
    match u {
        ElementUpdate::Value(v) => if x.kind == SyntaxElementKind::De {
            Some(ElementView { value: Some(v@), ..x })
        } else if v@ == "requested"@ {
            Some(ElementView { requested: true, ..x })
        } else {
            None
        },
        ElementUpdate::ValidValues(vs) => if x.kind == SyntaxElementKind::De {
            Some(ElementView { valid_values: x.valid_values + str_views(vs@), ..x })
        } else {
            None
        },
    }
}

proof fn lemma_first_hit(cs: Seq<ElementView>, k: int, i: int, p: Seq<char>, x: ElementView)
    requires
        0 <= k <= i < cs.len(),
        forall|j: int| 0 <= j < i ==> find(#[trigger] cs[j], p) is None,
        find(cs[i], p) is Some,
    ensures
        find_in(cs, k, p) == find(cs[i], p),
        replace_in(cs, k, p, x) == cs.update(i, replace_at(cs[i], p, x)),
    decreases i - k,
{
    if k < i {
        lemma_first_hit(cs, k + 1, i, p, x);
    }
}

proof fn lemma_no_hit(cs: Seq<ElementView>, k: int, p: Seq<char>)
    requires
        0 <= k <= cs.len(),
        forall|j: int| k <= j < cs.len() ==> find(#[trigger] cs[j], p) is None,
    ensures
        find_in(cs, k, p) is None,
    decreases cs.len() - k,
{
    if k < cs.len() {
        lemma_no_hit(cs, k + 1, p);
    }
}

proof fn lemma_same_views(a: Seq<SyntaxElement>, b: Seq<SyntaxElement>)
    requires
        a.len() == b.len(),
        forall|j: int| 0 <= j < a.len() ==> (#[trigger] a[j])@ == b[j]@,
    ensures
        element_views(a, 0) == element_views(b, 0),
{
    lemma_views_of(a);
    lemma_views_of(b);
    assert(element_views(a, 0) =~= element_views(b, 0));
}

impl SyntaxElement {
    /// Applies a change to the first element whose path is `path`, which
    /// must exist; `false` if the change does not apply to that element.
    fn update_found(&mut self, path: &str, u: ElementUpdate) -> (ok: bool)
        requires
            find(old(self)@, path@) is Some,
        ensures
            update_result(find(old(self)@, path@).unwrap(), u) matches Some(y) ==> ok
                && final(self)@ == replace_at(old(self)@, path@, y),
            update_result(find(old(self)@, path@).unwrap(), u) is None ==> !ok && final(self)@
                == old(self)@,
        decreases *old(self),
    {
        proof {
            lemma_view_fields(*self);
        }
        let ghost old_view = self@;
        if str_eq(self.path.as_str(), path) {
            match u {
                ElementUpdate::Value(v) => {
                    if self.kind == SyntaxElementKind::De {
                        self.value = Some(v);
                        return true;
                    }
                    if str_eq(v.as_str(), "requested") {
                        self.requested = true;
                        return true;
                    }
                    return false;
                },
                ElementUpdate::ValidValues(vs) => {
                    if self.kind != SyntaxElementKind::De {
                        return false;
                    }
                    let mut acc: Vec<String> = Vec::new();
                    std::mem::swap(&mut acc, &mut self.valid_values);
                    let ghost before = acc@;
                    let mut j: usize = 0;
                    while j < vs.len()
                        invariant
                            j <= vs@.len(),
                            str_views(acc@) == str_views(before) + str_views(vs@.take(j as int)),
                        decreases vs.len() - j,
                    {
                        let c = vs[j].clone();
                        assert(c@ == vs@[j as int]@);
                        let ghost prev = acc@;
                        acc.push(c);
                        assert(str_views(acc@) =~= str_views(prev).push(c@));
                        assert(str_views(vs@.take(j + 1)) =~= str_views(vs@.take(j as int)).push(c@));
                        assert(str_views(acc@) =~= str_views(before) + str_views(vs@.take(j + 1)));
                        j += 1;
                    }
                    self.valid_values = acc;
                    assert(vs@.take(j as int) =~= vs@);
                    return true;
                },
            }
        }
        let n = self.children.len();
        let mut i: usize = 0;
        while i < n && !self.children[i].has_path(path)
            invariant
                n == self.children@.len(),
                i <= n,
                self@ == old_view,
                old_view.children.len() == n,
                forall|j: int| 0 <= j < n ==> #[trigger] old_view.children[j] == self.children@[j]@,
                forall|j: int| 0 <= j < i ==> find(#[trigger] old_view.children[j], path@) is None,
            decreases n - i,
        {
            i += 1;
        }
        if i >= n {
            proof {
                lemma_no_hit(old_view.children, 0, path@);
            }
            assert(false);
            return false;
        }
        proof {
            lemma_first_hit(old_view.children, 0, i as int, path@, old_view);
        }
        let ghost old_children = self.children@;
        let mut ch: Vec<SyntaxElement> = Vec::new();
        std::mem::swap(&mut ch, &mut self.children);
        let mut child = ch.remove(i);
        assert(decreases_to!(*old(self) => old_children[i as int]));
        let ok = child.update_found(path, u);
        ch.insert(i, child);
        std::mem::swap(&mut ch, &mut self.children);
        proof {
            let x = find(old_view, path@).unwrap();
            assert(find(old_view, path@) == find(old_view.children[i as int], path@));
            lemma_views_of(self.children@);
            lemma_views_of(old_children);
            match update_result(x, u) {
                Some(y) => {
                    lemma_first_hit(old_view.children, 0, i as int, path@, y);
                    assert(element_views(self.children@, 0) =~= old_view.children.update(
                        i as int,
                        replace_at(old_view.children[i as int], path@, y),
                    ));
                },
                None => {
                    lemma_same_views(self.children@, old_children);
                },
            }
        }
        ok
    }

    /// Sets the value of the data element at `path`; an element of another
    /// kind can only be marked as requested, with the value `requested`.
    pub fn set_value(&mut self, path: &str, value: String) -> (r: HbciResult<()>)
        ensures
            find(old(self)@, path@) is None ==> (r matches Err(e) && e@ == (ErrorView {
                kind: HbciErrorKind::Protocol,
                message: "message element path "@ + path@ + " is not defined"@,
                source: None,
            }) && final(self)@ == old(self)@),
            find(old(self)@, path@) matches Some(x) ==> (update_result(
                x,
                ElementUpdate::Value(value),
            ) matches Some(y) ==> r is Ok && final(self)@ == replace_at(old(self)@, path@, y)),
            find(old(self)@, path@) matches Some(x) ==> (update_result(
                x,
                ElementUpdate::Value(value),
            ) is None ==> (r matches Err(e) && e@ == (ErrorView {
                kind: HbciErrorKind::InvalidArgument,
                message: "message element path "@ + path@ + " does not refer to a data element"@,
                source: None,
            }) && final(self)@ == old(self)@)),
    {
        if !self.has_path(path) {
            let mut m = concat("message element path ", path);
            append(&mut m, " is not defined");
            return Err(HbciError::new(HbciErrorKind::Protocol, m.as_str()));
        }
        if self.update_found(path, ElementUpdate::Value(value)) {
            Ok(())
        } else {
            let mut m = concat("message element path ", path);
            append(&mut m, " does not refer to a data element");
            Err(HbciError::new(HbciErrorKind::InvalidArgument, m.as_str()))
        }
    }

    /// Adds allowed values to the data element at `path`.
    pub fn add_valid_values(&mut self, path: &str, values: Vec<String>) -> (r: HbciResult<()>)
        ensures
            find(old(self)@, path@) is None ==> (r matches Err(e) && e@ == (ErrorView {
                kind: HbciErrorKind::Protocol,
                message: "message valid-values path "@ + path@ + " is not defined"@,
                source: None,
            }) && final(self)@ == old(self)@),
            find(old(self)@, path@) matches Some(x) ==> (update_result(
                x,
                ElementUpdate::ValidValues(values),
            ) matches Some(y) ==> r is Ok && final(self)@ == replace_at(old(self)@, path@, y)),
            find(old(self)@, path@) matches Some(x) ==> (update_result(
                x,
                ElementUpdate::ValidValues(values),
            ) is None ==> (r matches Err(e) && e@ == (ErrorView {
                kind: HbciErrorKind::Protocol,
                message: "message valid-values path "@ + path@
                    + " does not refer to a data element"@,
                source: None,
            }) && final(self)@ == old(self)@)),
    {
        if !self.has_path(path) {
            let mut m = concat("message valid-values path ", path);
            append(&mut m, " is not defined");
            return Err(HbciError::new(HbciErrorKind::Protocol, m.as_str()));
        }
        if self.update_found(path, ElementUpdate::ValidValues(values)) {
            Ok(())
        } else {
            let mut m = concat("message valid-values path ", path);
            append(&mut m, " does not refer to a data element");
            Err(HbciError::new(HbciErrorKind::Protocol, m.as_str()))
        }
    }
}

// ---------------------------------------------------------------------------
// Reading an element
// ---------------------------------------------------------------------------

impl SyntaxElement {
    pub fn kind(&self) -> (k: SyntaxElementKind)
        ensures
            k == self@.kind,
    {
        proof {
            lemma_view_fields(*self);
        }
        self.kind
    }

    /// The id of the definition or data type this element was built from.
    pub fn data_type(&self) -> (r: &str)
        ensures
            r@ == self@.data_type,
    {
        proof {
            lemma_view_fields(*self);
        }
        self.data_type.as_str()
    }

    pub fn name(&self) -> (r: &str)
        ensures
            r@ == self@.name,
    {
        proof {
            lemma_view_fields(*self);
        }
        self.name.as_str()
    }

    pub fn path(&self) -> (r: &str)
        ensures
            r@ == self@.path,
    {
        proof {
            lemma_view_fields(*self);
        }
        self.path.as_str()
    }

    pub fn occurrence_index(&self) -> (r: usize)
        ensures
            r == self@.occurrence_index,
    {
        proof {
            lemma_view_fields(*self);
        }
        self.occurrence_index
    }

    pub fn min_num(&self) -> (r: usize)
        ensures
            r == self@.min_num,
    {
        proof {
            lemma_view_fields(*self);
        }
        self.min_num
    }

    pub fn max_num(&self) -> (r: usize)
        ensures
            r == self@.max_num,
    {
        proof {
            lemma_view_fields(*self);
        }
        self.max_num
    }

    pub fn needs_request_tag(&self) -> (r: bool)
        ensures
            r == self@.needs_request_tag,
    {
        proof {
            lemma_view_fields(*self);
        }
        self.needs_request_tag
    }

    pub fn is_requested(&self) -> (r: bool)
        ensures
            r == self@.requested,
    {
        proof {
            lemma_view_fields(*self);
        }
        self.requested
    }

    pub fn value(&self) -> (r: Option<&str>)
        ensures
            r matches Some(v) ==> self@.value == Some(v@),
            r is None ==> self@.value is None,
    {
        proof {
            lemma_view_fields(*self);
        }
        match &self.value {
            Some(v) => Some(v.as_str()),
            None => None,
        }
    }

    pub fn valid_values(&self) -> (r: &[String])
        ensures
            str_views(r@) == self@.valid_values,
    {
        proof {
            lemma_view_fields(*self);
        }
        self.valid_values.as_slice()
    }

    pub fn children(&self) -> (r: &[SyntaxElement])
        ensures
            r@.len() == self@.children.len(),
            forall|j: int| 0 <= j < r@.len() ==> (#[trigger] r@[j])@ == self@.children[j],
    {
        proof {
            lemma_view_fields(*self);
        }
        self.children.as_slice()
    }
}

// ---------------------------------------------------------------------------
// Collecting values
// ---------------------------------------------------------------------------

/// The values of the data elements of a subtree, by path, added to `m` in
/// pre-order (a later element overrides an earlier one with the same path).
pub open spec fn collect(e: ElementView, m: Map<Seq<char>, Seq<char>>) -> Map<Seq<char>, Seq<char>>
    decreases e, 0int,
{
    let m1 = if e.kind == SyntaxElementKind::De && e.value is Some {
        m.insert(e.path, e.value.unwrap())
    } else {
        m
    };
    collect_in(e.children, 0, m1)
}

pub open spec fn collect_in(cs: Seq<ElementView>, i: int, m: Map<Seq<char>, Seq<char>>) -> Map<
    Seq<char>,
    Seq<char>,
>
    decreases cs, cs.len() - i,
{
    if i < 0 || i >= cs.len() {
        m
    } else {
        collect_in(cs, i + 1, collect(cs[i], m))
    }
}

impl SyntaxElement {
    fn collect_values(&self, values: &mut StrMap<String>)
        ensures
            text_view(final(values)@) == collect(self@, text_view(old(values)@)),
        decreases *self,
    {
        proof {
            lemma_view_fields(*self);
        }
        if self.kind == SyntaxElementKind::De {
            match &self.value {
                Some(v) => {
                    let ghost before = values@;
                    values.insert(self.path.clone(), v.clone());
                    assert(text_view(values@) =~= text_view(before).insert(self.path@, v@));
                },
                None => {},
            }
        }
        let mut i: usize = 0;
        while i < self.children.len()
            invariant
                i <= self.children@.len(),
                self@.children.len() == self.children@.len(),
                forall|j: int| 0 <= j < self.children@.len() ==> #[trigger] self@.children[j] == self.children@[j]@,
                collect(self@, text_view(old(values)@)) == collect_in(
                    self@.children,
                    i as int,
                    text_view(values@),
                ),
            decreases self.children.len() - i,
        {
            assert(decreases_to!(*self => self.children@[i as int]));
            self.children[i].collect_values(values);
            i += 1;
        }
    }
}

/// The entries of `m` whose keys start with `prefix`, with the prefix removed.
pub open spec fn strip_prefix_map<V>(m: Map<Seq<char>, V>, prefix: Seq<char>) -> Map<
    Seq<char>,
    V,
> {
    Map::new(|k: Seq<char>| m.contains_key(prefix + k), |k: Seq<char>| m[prefix + k])
}

/// The entries of a map whose keys start with `prefix`, with the prefix removed.
pub fn strip_key_prefix(values: &StrMap<String>, prefix: &str) -> (r: StrMap<String>)
    ensures
        r@ == strip_prefix_map(values@, prefix@),
{
    values.check_well_formed();
    let n = values.len();
    let pv = chars_of(prefix);
    let mut r: StrMap<String> = StrMap::new();
    let mut i: usize = 0;
    let ghost ks = values.keys_view();
    while i < n
        invariant
            n == values.size(),
            values.well_formed(),
            ks == values.keys_view(),
            pv@ == prefix@,
            i <= n,
            forall|k: Seq<char>|
                #[trigger] r@.contains_key(k) <==> exists|j: int| 0 <= j < i && ks[j] == prefix@ + k,
            forall|k: Seq<char>| #[trigger] r@.contains_key(k) ==> r@[k] == values@[prefix@ + k],
        decreases n - i,
    {
        let key = values.key_at(i);
        let kv = chars_of(key.as_str());
        proof {
            crate::strmap::lemma_entry(values, i as int);
        }
        if crate::text::starts_with_str(key.as_str(), prefix) {
            let rest = string_of(crate::text::slice_chars(kv.as_slice(), pv.len(), kv.len()).as_slice());
            assert(prefix@ + rest@ =~= ks[i as int]);
            let ghost before = r@;
            r.insert(rest, values.value_at(i).clone());
            assert forall|k: Seq<char>| #[trigger] r@.contains_key(k) implies exists|j: int|
                0 <= j < i + 1 && ks[j] == prefix@ + k by {
                if k != rest@ {
                    assert(before.contains_key(k));
                } else {
                    assert(ks[i as int] == prefix@ + k);
                }
            }
            assert forall|k: Seq<char>| (exists|j: int| 0 <= j < i + 1 && ks[j] == prefix@ + k)
                implies #[trigger] r@.contains_key(k) by {
                let j = choose|j: int| 0 <= j < i + 1 && ks[j] == prefix@ + k;
                if j < i {
                    assert(before.contains_key(k));
                } else {
                    assert(prefix@ + k == prefix@ + rest@);
                    assert(k =~= (prefix@ + k).skip(prefix@.len() as int));
                    assert(rest@ =~= (prefix@ + rest@).skip(prefix@.len() as int));
                }
            }
        } else {
            assert forall|k: Seq<char>| (exists|j: int| 0 <= j < i + 1 && ks[j] == prefix@ + k)
                implies #[trigger] r@.contains_key(k) by {
                let j = choose|j: int| 0 <= j < i + 1 && ks[j] == prefix@ + k;
                if j == i {
                    assert((prefix@ + k).subrange(0, prefix@.len() as int) =~= prefix@);
                }
            }
        }
        i += 1;
    }
    assert forall|k: Seq<char>| r@.contains_key(k) <==> #[trigger] values@.contains_key(prefix@ + k) by {
        if values@.contains_key(prefix@ + k) {
            let j = crate::strmap::key_index(ks, prefix@ + k);
            assert(ks[j] == prefix@ + k);
        }
    }
    assert(r@ =~= strip_prefix_map(values@, prefix@));
    r
}

// ---------------------------------------------------------------------------
// Messages
// ---------------------------------------------------------------------------

/// A message: the tree of its elements under a root of kind `Msg`.
#[derive(Debug)]
pub struct HbciMessage {
    root: SyntaxElement,
}

impl View for HbciMessage {
    type V = ElementView;

    closed spec fn view(&self) -> ElementView {
        self.root@
    }
}

impl HbciMessage {
    /// The message name (the id of its definition).
    pub fn name(&self) -> (r: &str)
        ensures
            r@ == self@.name,
    {
        self.root.name()
    }

    pub fn path(&self) -> (r: &str)
        ensures
            r@ == self@.path,
    {
        self.root.path()
    }

    pub fn root(&self) -> (r: &SyntaxElement)
        ensures
            r@ == self@,
    {
        &self.root
    }

    /// The first element, in pre-order, whose path is `path`.
    pub fn element(&self, path: &str) -> (r: Option<&SyntaxElement>)
        ensures
            r matches Some(x) ==> find(self@, path@) == Some(x@),
            r is None ==> find(self@, path@) is None,
    {
        self.root.element(path)
    }

    /// The value of the element at `path`, if it seen one.
    pub fn value(&self, path: &str) -> (r: Option<&str>)
        ensures
            r matches Some(v) ==> find(self@, path@) matches Some(x) && x.value == Some(v@),
            r is None ==> find(self@, path@) is None || find(self@, path@).unwrap().value is None,
    {
        match self.root.element(path) {
            Some(x) => x.value(),
            None => None,
        }
    }

    /// Sets the value of the data element at `path` (see `SyntaxElement::set_value`).
    pub fn set_value(&mut self, path: &str, value: String) -> (r: HbciResult<()>)
        ensures
            find(old(self)@, path@) is None ==> (r matches Err(e) && e@ == (ErrorView {
                kind: HbciErrorKind::Protocol,
                message: "message element path "@ + path@ + " is not defined"@,
                source: None,
            }) && final(self)@ == old(self)@),
            find(old(self)@, path@) matches Some(x) ==> (update_result(
                x,
                ElementUpdate::Value(value),
            ) matches Some(y) ==> r is Ok && final(self)@ == replace_at(old(self)@, path@, y)),
            find(old(self)@, path@) matches Some(x) ==> (update_result(
                x,
                ElementUpdate::Value(value),
            ) is None ==> (r matches Err(e) && e@ == (ErrorView {
                kind: HbciErrorKind::InvalidArgument,
                message: "message element path "@ + path@ + " does not refer to a data element"@,
                source: None,
            }) && final(self)@ == old(self)@)),
    {
        self.root.set_value(path, value)
    }

    /// The values of all data elements that have one, by path.
    pub fn values(&self) -> (r: StrMap<String>)
        ensures
            text_view(r@) == collect(self@, Map::empty()),
    {
        let mut m: StrMap<String> = StrMap::new();
        assert(text_view(m@) =~= Map::empty());
        self.root.collect_values(&mut m);
        m
    }

    /// The values by path relative to the message (the name and a dot removed).
    pub fn data(&self) -> (r: StrMap<String>)
        ensures
            text_view(r@) == strip_prefix_map(collect(self@, Map::empty()), self@.name + "."@),
    {
        let mut prefix = self.root.name.clone();
        proof {
            lemma_view_fields(self.root);
        }
        append(&mut prefix, ".");
        let values = self.values();
        let r = strip_key_prefix(&values, prefix.as_str());
        assert(text_view(r@) =~= strip_prefix_map(text_view(values@), prefix@));
        r
    }
}

// ---------------------------------------------------------------------------
// Rendering
// ---------------------------------------------------------------------------

pub open spec fn protocol_error(message: Seq<char>) -> ErrorView {
    ErrorView { kind: HbciErrorKind::Protocol, message, source: None }
}

/// A data element value in wire syntax: binary values (`B` and the bytes)
/// as `@n@` blocks, all others quoted.
pub open spec fn render_value(data_type: Seq<char>, v: Seq<char>) -> Result<Seq<char>, ErrorView> {
    if data_type == "Bin"@ {
        if v.len() > 0 && v[0] == 'B' {
            Ok("@"@ + decimal(utf8_len(v.skip(1))) + "@"@ + v.skip(1))
        } else {
            Err(
                ErrorView {
                    kind: HbciErrorKind::Unsupported,
                    message: "numeric binary data element rendering is not supported"@,
                    source: None,
                },
            )
        }
    } else {
        Ok(quote(v))
    }
}

/// Whether an element or one below it seen a value or is marked as requested.
pub open spec fn has_any_value(e: ElementView) -> bool
    decreases e, 0int,
{
    e.value is Some || e.requested || any_value_in(e.children, 0)
}

pub open spec fn any_value_in(cs: Seq<ElementView>, i: int) -> bool
    decreases cs, cs.len() - i,
{
    if i < 0 || i >= cs.len() {
        false
    } else {
        has_any_value(cs[i]) || any_value_in(cs, i + 1)
    }
}

pub open spec fn not_renderable(path: Seq<char>) -> ErrorView {
    protocol_error("required message element "@ + path + " is not renderable"@)
}

/// An element as rendered by its parent: an optional element that fails to
/// render and seen no value anywhere is left out.
pub open spec fn render_optional(e: ElementView, parent: Option<SyntaxElementKind>) -> Result<
    Option<Seq<char>>,
    ErrorView,
>
    decreases e, 2int,
{
    let required = e.min_num > 0;
    match render(e, parent, required) {
        Ok(r) => Ok(r),
        Err(x) => if !required && !has_any_value(e) {
            Ok(None)
        } else {
            Err(x)
        },
    }
}

/// The children from `i` on, concatenated; and whether any of them rendered.
pub open spec fn concat_children(cs: Seq<ElementView>, i: int, kind: SyntaxElementKind) -> Result<
    (Seq<char>, bool),
    ErrorView,
>
    decreases cs, cs.len() - i,
{
    if i < 0 || i >= cs.len() {
        Ok((seq![], false))
    } else {
        match render_optional(cs[i], Some(kind)) {
            Err(x) => Err(x),
            Ok(Some(r)) => match concat_children(cs, i + 1, kind) {
                Ok((rest, _)) => Ok((r + rest, true)),
                Err(x) => Err(x),
            },
            Ok(None) => if cs[i].min_num > 0 {
                Err(not_renderable(cs[i].path))
            } else {
                concat_children(cs, i + 1, kind)
            },
        }
    }
}

/// The renderings of the children from `i` on (empty for a left-out
/// optional child); and whether any of them is non-empty.
pub open spec fn delimited_children(cs: Seq<ElementView>, i: int, kind: SyntaxElementKind) -> Result<
    (Seq<Seq<char>>, bool),
    ErrorView,
>
    decreases cs, cs.len() - i,
{
    if i < 0 || i >= cs.len() {
        Ok((seq![], false))
    } else {
        match render_optional(cs[i], Some(kind)) {
            Err(x) => Err(x),
            Ok(Some(r)) => match delimited_children(cs, i + 1, kind) {
                Ok((rest, seen)) => Ok((seq![r] + rest, r.len() > 0 || seen)),
                Err(x) => Err(x),
            },
            Ok(None) => if cs[i].min_num > 0 {
                Err(not_renderable(cs[i].path))
            } else {
                match delimited_children(cs, i + 1, kind) {
                    Ok((rest, seen)) => Ok((seq![seq![]] + rest, seen)),
                    Err(x) => Err(x),
                }
            },
        }
    }
}

/// The parts without their trailing empty ones.
pub open spec fn trim_trailing_empty(parts: Seq<Seq<char>>) -> Seq<Seq<char>>
    decreases parts.len(),
{
    if parts.len() > 0 && parts.last().len() == 0 {
        trim_trailing_empty(parts.drop_last())
    } else {
        parts
    }
}

pub open spec fn render_delimited(
    e: ElementView,
    parent: Option<SyntaxElementKind>,
    delimiter: char,
    trim_trailing: bool,
    required: bool,
) -> Result<Option<Seq<char>>, ErrorView>
    decreases e, 0int,
{
    match delimited_children(e.children, 0, e.kind) {
        Err(x) => Err(x),
        Ok((parts, seen)) => {
            let kept = if trim_trailing {
                trim_trailing_empty(parts)
            } else {
                parts
            };
            if !seen && !required {
                Ok(None)
            } else {
                let joined = crate::text::join(kept, seq![delimiter]);
                let r = if e.kind == SyntaxElementKind::Seg {
                    joined.push('\'')
                } else {
                    joined
                };
                if r.len() == 0 && parent is Some && !required {
                    Ok(None)
                } else {
                    Ok(Some(r))
                }
            }
        },
    }
}

/// An element in wire syntax; `None` when it is left out.
pub open spec fn render(e: ElementView, parent: Option<SyntaxElementKind>, required: bool) -> Result<
    Option<Seq<char>>,
    ErrorView,
>
    decreases e, 1int,
{
    if e.needs_request_tag && !e.requested {
        Ok(None)
    } else {
        match e.kind {
            SyntaxElementKind::De => match e.value {
                Some(v) => match render_value(e.data_type, v) {
                    Ok(r) => Ok(Some(r)),
                    Err(x) => Err(x),
                },
                None => if required {
                    Err(protocol_error("message element "@ + e.path + " seen no value"@))
                } else {
                    Ok(None)
                },
            },
            SyntaxElementKind::Msg => match concat_children(e.children, 0, e.kind) {
                Ok((r, _)) => Ok(Some(r)),
                Err(x) => Err(x),
            },
            SyntaxElementKind::Sf => match concat_children(e.children, 0, e.kind) {
                Ok((r, any)) => if any || required {
                    Ok(Some(r))
                } else {
                    Ok(None)
                },
                Err(x) => Err(x),
            },
            SyntaxElementKind::Seg => render_delimited(e, parent, '+', true, required),
            SyntaxElementKind::Deg => render_delimited(
                e,
                parent,
                ':',
                parent != Some(SyntaxElementKind::Deg),
                required,
            ),
        }
    }
}

pub open spec fn rendered_view(r: HbciResult<Option<String>>) -> Result<Option<Seq<char>>, ErrorView> {
    match r {
        Ok(Some(s)) => Ok(Some(s@)),
        Ok(None) => Ok(None),
        Err(e) => Err(e@),
    }
}

/// Renders a data element value.
fn render_value_exec(data_type: &str, v: &str) -> (r: HbciResult<String>)
    ensures
        r matches Ok(s) ==> render_value(data_type@, v@) == Ok::<Seq<char>, ErrorView>(s@),
        r matches Err(e) ==> render_value(data_type@, v@) == Err::<Seq<char>, ErrorView>(e@),
{
    if str_eq(data_type, "Bin") {
        let chars = chars_of(v);
        if chars.len() == 0 || chars[0] != 'B' {
            return Err(
                HbciError::new(
                    HbciErrorKind::Unsupported,
                    "numeric binary data element rendering is not supported",
                ),
            );
        }
        let payload = string_of(crate::text::slice_chars(chars.as_slice(), 1, chars.len()).as_slice());
        assert(payload@ =~= v@.skip(1));
        let mut out = String::new();
        push_char(&mut out, '@');
        push_decimal(&mut out, byte_len(payload.as_str()) as u64);
        push_char(&mut out, '@');
        append(&mut out, payload.as_str());
        proof {
            reveal_strlit("@");
        }
        assert(out@ =~= "@"@ + decimal(utf8_len(payload@)) + "@"@ + payload@);
        Ok(out)
    } else {
        Ok(quote_data_element(v))
    }
}

/// Joins texts with a one-character delimiter between them.
fn join_with(parts: &Vec<String>, delimiter: char) -> (r: String)
    ensures
        r@ == crate::text::join(str_views(parts@), seq![delimiter]),
{
    let mut result = String::new();
    let mut i: usize = 0;
    while i < parts.len()
        invariant
            i <= parts@.len(),
            result@ == crate::text::join(str_views(parts@.take(i as int)), seq![delimiter]),
        decreases parts.len() - i,
    {
        if i > 0 {
            push_char(&mut result, delimiter);
        }
        append(&mut result, parts[i].as_str());
        proof {
            let ps = str_views(parts@.take(i + 1));
            assert(ps.drop_last() =~= str_views(parts@.take(i as int)));
            assert(ps.last() == parts@[i as int]@);
            assert(result@ =~= crate::text::join(ps, seq![delimiter]));
        }
        i += 1;
    }
    assert(parts@.take(parts@.len() as int) =~= parts@);
    result
}

impl SyntaxElement {
    fn has_any_value(&self) -> (b: bool)
        ensures
            b == has_any_value(self@),
        decreases *self, 0int,
    {
        proof {
            lemma_view_fields(*self);
        }
        if self.value.is_some() || self.requested {
            return true;
        }
        let mut i: usize = 0;
        while i < self.children.len()
            invariant
                i <= self.children@.len(),
                self@.children.len() == self.children@.len(),
                forall|j: int| 0 <= j < self.children@.len() ==> #[trigger] self@.children[j] == self.children@[j]@,
                !(self@.value is Some || self@.requested),
                has_any_value(self@) == any_value_in(self@.children, i as int),
            decreases self.children.len() - i,
        {
            assert(decreases_to!(*self => self.children@[i as int]));
            if self.children[i].has_any_value() {
                return true;
            }
            i += 1;
        }
        false
    }

    fn render_optional(&self, parent: Option<SyntaxElementKind>) -> (r: HbciResult<Option<String>>)
        ensures
            rendered_view(r) == render_optional(self@, parent),
        decreases *self, 2int,
    {
        proof {
            lemma_view_fields(*self);
        }
        let required = self.min_num > 0;
        match self.render(parent, required) {
            Ok(r) => Ok(r),
            Err(x) => {
                if !required && !self.has_any_value() {
                    Ok(None)
                } else {
                    Err(x)
                }
            },
        }
    }

    fn not_renderable_error(&self) -> (e: HbciError)
        ensures
            e@ == not_renderable(self@.path),
    {
        proof {
            lemma_view_fields(*self);
        }
        let mut m = concat("required message element ", self.path.as_str());
        append(&mut m, " is not renderable");
        HbciError::new(HbciErrorKind::Protocol, m.as_str())
    }

    fn render_concatenated(&self) -> (r: HbciResult<(String, bool)>)
        ensures
            r matches Ok((s, any)) ==> concat_children(self@.children, 0, self@.kind) == Ok::<
                (Seq<char>, bool),
                ErrorView,
            >((s@, any)),
            r matches Err(e) ==> concat_children(self@.children, 0, self@.kind) == Err::<
                (Seq<char>, bool),
                ErrorView,
            >(e@),
        decreases *self, 0int,
    {
        proof {
            lemma_view_fields(*self);
        }
        let mut out = String::new();
        let mut any = false;
        let mut i: usize = 0;
        while i < self.children.len()
            invariant
                i <= self.children@.len(),
                self@.children.len() == self.children@.len(),
                forall|j: int| 0 <= j < self.children@.len() ==> #[trigger] self@.children[j] == self.children@[j]@,
                concat_children(self@.children, 0, self@.kind) == match concat_children(
                    self@.children,
                    i as int,
                    self@.kind,
                ) {
                    Ok((rest, a)) => Ok::<(Seq<char>, bool), ErrorView>((out@ + rest, any || a)),
                    Err(x) => Err(x),
                },
            decreases self.children.len() - i,
        {
            assert(decreases_to!(*self => self.children@[i as int]));
            let child = &self.children[i];
            match child.render_optional(Some(self.kind)) {
                Err(x) => {
                    return Err(x);
                },
                Ok(Some(r)) => {
                    let ghost before = out@;
                    append(&mut out, r.as_str());
                    any = true;
                    proof {
                        match concat_children(self@.children, i + 1, self@.kind) {
                            Ok((rest, a)) => {
                                assert(before + (r@ + rest) =~= out@ + rest);
                            },
                            Err(x) => {},
                        }
                    }
                },
                Ok(None) => {
                    if child.min_num > 0 {
                        return Err(child.not_renderable_error());
                    }
                },
            }
            i += 1;
        }
        assert(out@ + seq![] =~= out@);
        Ok((out, any))
    }

    fn render_delimited(
        &self,
        parent: Option<SyntaxElementKind>,
        delimiter: char,
        trim_trailing: bool,
        required: bool,
    ) -> (r: HbciResult<Option<String>>)
        ensures
            rendered_view(r) == render_delimited(self@, parent, delimiter, trim_trailing, required),
        decreases *self, 0int,
    {
        proof {
            lemma_view_fields(*self);
        }
        let mut parts: Vec<String> = Vec::new();
        let mut seen = false;
        let mut i: usize = 0;
        while i < self.children.len()
            invariant
                i <= self.children@.len(),
                self@.children.len() == self.children@.len(),
                forall|j: int| 0 <= j < self.children@.len() ==> #[trigger] self@.children[j] == self.children@[j]@,
                delimited_children(self@.children, 0, self@.kind) == match delimited_children(
                    self@.children,
                    i as int,
                    self@.kind,
                ) {
                    Ok((rest, h)) => Ok::<(Seq<Seq<char>>, bool), ErrorView>(
                        (str_views(parts@) + rest, seen || h),
                    ),
                    Err(x) => Err(x),
                },
            decreases self.children.len() - i,
        {
            assert(decreases_to!(*self => self.children@[i as int]));
            let child = &self.children[i];
            let ghost before = str_views(parts@);
            match child.render_optional(Some(self.kind)) {
                Err(x) => {
                    return Err(x);
                },
                Ok(Some(r)) => {
                    let nonempty = crate::text::char_len(r.as_str()) > 0;
                    seen = seen || nonempty;
                    let ghost rv = r@;
                    parts.push(r);
                    proof {
                        assert(str_views(parts@) =~= before.push(rv));
                        match delimited_children(self@.children, i + 1, self@.kind) {
                            Ok((rest, h)) => {
                                assert(before + (seq![rv] + rest) =~= str_views(parts@) + rest);
                            },
                            Err(x) => {},
                        }
                    }
                },
                Ok(None) => {
                    if child.min_num > 0 {
                        return Err(child.not_renderable_error());
                    }
                    parts.push(String::new());
                    proof {
                        assert(str_views(parts@) =~= before.push(seq![]));
                        match delimited_children(self@.children, i + 1, self@.kind) {
                            Ok((rest, h)) => {
                                assert(before + (seq![seq![]] + rest) =~= str_views(parts@)
                                    + rest);
                            },
                            Err(x) => {},
                        }
                    }
                },
            }
            i += 1;
        }
        assert(str_views(parts@) + seq![] =~= str_views(parts@));
        if trim_trailing {
            while parts.len() > 0 && crate::text::char_len(parts[parts.len() - 1].as_str()) == 0
                invariant
                    trim_trailing_empty(str_views(parts@)) == trim_trailing_empty(
                        match delimited_children(self@.children, 0, self@.kind) {
                            Ok((ps, _)) => ps,
                            Err(_) => seq![],
                        },
                    ),
                decreases parts.len(),
            {
                let ghost before = str_views(parts@);
                parts.pop();
                assert(str_views(parts@) =~= before.drop_last());
            }
        }
        if !seen && !required {
            return Ok(None);
        }
        let mut rendered = join_with(&parts, delimiter);
        if self.kind == SyntaxElementKind::Seg {
            push_char(&mut rendered, '\'');
        }
        if crate::text::char_len(rendered.as_str()) == 0 && parent.is_some() && !required {
            Ok(None)
        } else {
            Ok(Some(rendered))
        }
    }

    fn render(&self, parent: Option<SyntaxElementKind>, required: bool) -> (r: HbciResult<
        Option<String>,
    >)
        ensures
            rendered_view(r) == render(self@, parent, required),
        decreases *self, 1int,
    {
        proof {
            lemma_view_fields(*self);
        }
        if self.needs_request_tag && !self.requested {
            return Ok(None);
        }
        match self.kind {
            SyntaxElementKind::De => match &self.value {
                Some(v) => match render_value_exec(self.data_type.as_str(), v.as_str()) {
                    Ok(s) => Ok(Some(s)),
                    Err(x) => Err(x),
                },
                None => {
                    if required {
                        let mut m = concat("message element ", self.path.as_str());
                        append(&mut m, " seen no value");
                        Err(HbciError::new(HbciErrorKind::Protocol, m.as_str()))
                    } else {
                        Ok(None)
                    }
                },
            },
            SyntaxElementKind::Msg => match self.render_concatenated() {
                Ok((s, _)) => Ok(Some(s)),
                Err(x) => Err(x),
            },
            SyntaxElementKind::Sf => match self.render_concatenated() {
                Ok((s, any)) => {
                    if any || required {
                        Ok(Some(s))
                    } else {
                        Ok(None)
                    }
                },
                Err(x) => Err(x),
            },
            SyntaxElementKind::Seg => self.render_delimited(parent, '+', true, required),
            SyntaxElementKind::Deg => {
                let trim = match parent {
                    Some(SyntaxElementKind::Deg) => false,
                    _ => true,
                };
                self.render_delimited(parent, ':', trim, required)
            },
        }
    }

    /// The element in wire syntax (empty when it is left out).
    pub fn to_fints_string(&self) -> (r: HbciResult<String>)
        ensures
            r matches Ok(s) ==> (render(self@, None, true) == Ok::<
                Option<Seq<char>>,
                ErrorView,
            >(Some(s@)) || (render(self@, None, true) == Ok::<Option<Seq<char>>, ErrorView>(
                None,
            ) && s@.len() == 0)),
            r matches Err(e) ==> render(self@, None, true) == Err::<Option<Seq<char>>, ErrorView>(
                e@,
            ),
    {
        match self.render(None, true) {
            Ok(Some(s)) => Ok(s),
            Ok(None) => Ok(String::new()),
            Err(e) => Err(e),
        }
    }
}

impl SyntaxElement {
    /// A new element without value, valid values or children.
    pub(crate) fn fresh(
        kind: SyntaxElementKind,
        data_type: String,
        name: String,
        path: String,
        occurrence_index: usize,
        min_num: usize,
        max_num: usize,
        needs_request_tag: bool,
    ) -> (e: Self)
        ensures
            e@ == (ElementView {
                kind,
                data_type: data_type@,
                name: name@,
                path: path@,
                occurrence_index: occurrence_index as nat,
                min_num: min_num as nat,
                max_num: max_num as nat,
                needs_request_tag,
                requested: false,
                value: None,
                valid_values: Seq::empty(),
                children: Seq::empty(),
            }),
    {
        let e = SyntaxElement {
            kind,
            data_type,
            name,
            path,
            occurrence_index,
            min_num,
            max_num,
            needs_request_tag,
            requested: false,
            value: None,
            valid_values: Vec::new(),
            children: Vec::new(),
        };
        proof {
            lemma_view_fields(e);
            assert(e@.valid_values =~= Seq::empty());
            assert(e@.children =~= Seq::empty());
        }
        e
    }

    /// Appends a child element.
    pub(crate) fn push_child(&mut self, child: SyntaxElement)
        ensures
            final(self)@ == (ElementView { children: old(self)@.children.push(child@), ..old(self)@ }),
    {
        proof {
            lemma_view_fields(*self);
        }
        self.children.push(child);
        proof {
            lemma_view_fields(*self);
            assert(self@.children =~= old(self)@.children.push(child@));
        }
    }
}

impl HbciMessage {
    /// A message with the given root element.
    pub(crate) fn from_root(root: SyntaxElement) -> (m: Self)
        ensures
            m@ == root@,
    {
        HbciMessage { root }
    }
}

impl HbciMessage {
    /// The message in wire syntax.
    pub fn to_fints_string(&self) -> (r: HbciResult<String>)
        ensures
            r matches Ok(s) ==> (render(self@, None, true) == Ok::<
                Option<Seq<char>>,
                ErrorView,
            >(Some(s@)) || (render(self@, None, true) == Ok::<Option<Seq<char>>, ErrorView>(
                None,
            ) && s@.len() == 0)),
            r matches Err(e) ==> render(self@, None, true) == Err::<Option<Seq<char>>, ErrorView>(
                e@,
            ),
    {
        self.root.to_fints_string()
    }
}

} // verus!
