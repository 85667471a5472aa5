//! Reading the syntax definitions of a protocol version from its XML
//! specification: `DEGdef`, `SEGdef`, `SFdef` and `MSGdef` elements with
//! their children, preset values and valid-value sets.

use vstd::prelude::*;
use crate::error::{ErrorView, HbciError, HbciErrorKind, HbciResult};
use crate::protocol::model::{DefinitionKind, ProtocolSyntax, SyntaxChild, SyntaxChildKind, SyntaxDefinition, SyntaxValidSet, SyntaxValue};
use crate::text::{append, str_eq};
use crate::tools::opt_view;
use crate::xml::{XmlEvent, XmlTag, attr_value, tag_attr, xml_events, xml_events_of};

verus! {

/// A child of a definition, as plain values.
pub ghost struct ChildView {
    pub kind: SyntaxChildKind,
    pub data_type: Seq<char>,
    pub name: Option<Seq<char>>,
    pub min_size: Option<Seq<char>>,
    pub max_size: Option<Seq<char>>,
    pub min_num: Option<Seq<char>>,
    pub max_num: Option<Seq<char>>,
}

/// A valid-value set, as plain values.
pub ghost struct ValidsView {
    pub path: Seq<char>,
    pub values: Seq<Seq<char>>,
}

/// A definition, as plain values.
pub ghost struct DefView {
    pub id: Seq<char>,
    pub kind: DefinitionKind,
    pub needs_request_tag: bool,
    pub dont_sign: bool,
    pub dont_crypt: bool,
    pub children: Seq<ChildView>,
    pub values: Seq<(Seq<char>, Seq<char>)>,
    pub valids: Seq<ValidsView>,
}

pub open spec fn child_view(c: SyntaxChild) -> ChildView {
    ChildView {
        kind: c.kind,
        data_type: c.data_type@,
        name: opt_view(c.name),
        min_size: opt_view(c.min_size),
        max_size: opt_view(c.max_size),
        min_num: opt_view(c.min_num),
        max_num: opt_view(c.max_num),
    }
}

pub open spec fn valids_view(s: SyntaxValidSet) -> ValidsView {
    ValidsView { path: s.path@, values: s.values@.map_values(|v: String| v@) }
}

pub open spec fn def_view(d: SyntaxDefinition) -> DefView {
    DefView {
        id: d.id@,
        kind: d.kind,
        needs_request_tag: d.needs_request_tag,
        dont_sign: d.dont_sign,
        dont_crypt: d.dont_crypt,
        children: d.children@.map_values(|c: SyntaxChild| child_view(c)),
        values: d.values@.map_values(|v: SyntaxValue| (v.path@, v.value@)),
        valids: d.valids@.map_values(|s: SyntaxValidSet| valids_view(s)),
    }
}

/// The definitions of a syntax, as plain values.
pub open spec fn def_views(m: Map<Seq<char>, SyntaxDefinition>) -> Map<Seq<char>, DefView> {
    m.map_values(|d: SyntaxDefinition| def_view(d))
}

/// Text being collected: a preset value for a path, or a valid value.
pub ghost enum TextView {
    Value(Seq<char>, Seq<char>),
    ValidValue(Seq<char>),
}

/// Where reading the specification stands: the definitions completed, the
/// definition open, the valid-value set open and the text being collected.
pub ghost struct ParseState {
    pub defs: Map<Seq<char>, DefView>,
    pub current: Option<DefView>,
    pub valids: Option<ValidsView>,
    pub capture: Option<TextView>,
}

pub open spec fn parse_initial() -> ParseState {
    ParseState { defs: Map::empty(), current: None, valids: None, capture: None }
}

pub open spec fn protocol_error(m: Seq<char>) -> ErrorView {
    ErrorView { kind: HbciErrorKind::Protocol, message: m, source: None }
}

/// An attribute of a tag.
pub open spec fn syntax_attr(tag: XmlTag, name: Seq<char>) -> Result<Option<Seq<char>>, ErrorView> {
    attr_value(tag.attrs@, name, "failed to parse XML attribute"@, "failed to decode XML attribute"@)
}

/// An attribute that a tag must have.
pub open spec fn syntax_required(tag: XmlTag, name: Seq<char>) -> Result<Seq<char>, ErrorView> {
    match syntax_attr(tag, name) {
        Err(e) => Err(e),
        Ok(Some(v)) => Ok(v),
        Ok(None) => Err(protocol_error("protocol element "@ + tag.name@ + " is missing required "@ + name + " attribute"@)),
    }
}

/// A flag attribute: set where its value is `1`.
pub open spec fn flag_attr(tag: XmlTag, name: Seq<char>) -> Result<bool, ErrorView> {
    match syntax_attr(tag, name) {
        Err(e) => Err(e),
        Ok(v) => Ok(v == Some("1"@)),
    }
}

/// The kind of definition that an element name opens.
pub open spec fn definition_kind(n: Seq<char>) -> Option<DefinitionKind> {
    if n == "DEGdef"@ {
        Some(DefinitionKind::Deg)
    } else if n == "SEGdef"@ {
        Some(DefinitionKind::Seg)
    } else if n == "SFdef"@ {
        Some(DefinitionKind::Sf)
    } else if n == "MSGdef"@ {
        Some(DefinitionKind::Msg)
    } else {
        None
    }
}

/// The kind of child that an element name stands for.
pub open spec fn child_kind(n: Seq<char>) -> Option<SyntaxChildKind> {
    if n == "DE"@ {
        Some(SyntaxChildKind::De)
    } else if n == "DEG"@ {
        Some(SyntaxChildKind::Deg)
    } else if n == "SEG"@ {
        Some(SyntaxChildKind::Seg)
    } else if n == "SF"@ {
        Some(SyntaxChildKind::Sf)
    } else {
        None
    }
}

/// A new definition from the attributes of its start tag.
pub open spec fn started_definition(tag: XmlTag, kind: DefinitionKind) -> Result<DefView, ErrorView> {
    match syntax_required(tag, "id"@) {
        Err(e) => Err(e),
        Ok(id) => match flag_attr(tag, "needsRequestTag"@) {
            Err(e) => Err(e),
            Ok(nr) => match flag_attr(tag, "dontsign"@) {
                Err(e) => Err(e),
                Ok(ds) => match flag_attr(tag, "dontcrypt"@) {
                    Err(e) => Err(e),
                    Ok(dc) => Ok(DefView {
                        id,
                        kind,
                        needs_request_tag: nr,
                        dont_sign: ds,
                        dont_crypt: dc,
                        children: seq![],
                        values: seq![],
                        valids: seq![],
                    }),
                },
            },
        },
    }
}

/// A child from the attributes of its tag: its type is the `type`
/// attribute, else the `name` attribute.
pub open spec fn parsed_child(tag: XmlTag, kind: SyntaxChildKind) -> Result<ChildView, ErrorView> {
    match syntax_attr(tag, "type"@) {
        Err(e) => Err(e),
        Ok(t) => match syntax_attr(tag, "name"@) {
            Err(e) => Err(e),
            Ok(n) => match (if t is Some { t } else { n }) {
                None => Err(protocol_error("protocol child is missing type/name attribute"@)),
                Some(dt) => match syntax_attr(tag, "minsize"@) {
                    Err(e) => Err(e),
                    Ok(a) => match syntax_attr(tag, "maxsize"@) {
                        Err(e) => Err(e),
                        Ok(b) => match syntax_attr(tag, "minnum"@) {
                            Err(e) => Err(e),
                            Ok(c) => match syntax_attr(tag, "maxnum"@) {
                                Err(e) => Err(e),
                                Ok(d) => Ok(ChildView {
                                    kind,
                                    data_type: dt,
                                    name: n,
                                    min_size: a,
                                    max_size: b,
                                    min_num: c,
                                    max_num: d,
                                }),
                            },
                        },
                    },
                },
            },
        },
    }
}

pub open spec fn syntax_start(st: ParseState, tag: XmlTag) -> Result<ParseState, ErrorView> {
    let n = tag.name@;
    match definition_kind(n) {
        Some(k) => match started_definition(tag, k) {
            Err(e) => Err(e),
            Ok(d) => Ok(ParseState { current: Some(d), ..st }),
        },
        None => if n == "valids"@ {
            match syntax_required(tag, "path"@) {
                Err(e) => Err(e),
                Ok(p) => Ok(ParseState { valids: Some(ValidsView { path: p, values: seq![] }), ..st }),
            }
        } else if n == "validvalue"@ {
            Ok(ParseState { capture: Some(TextView::ValidValue(seq![])), ..st })
        } else if n == "value"@ {
            match syntax_required(tag, "path"@) {
                Err(e) => Err(e),
                Ok(p) => Ok(ParseState { capture: Some(TextView::Value(p, seq![])), ..st }),
            }
        } else {
            Ok(st)
        },
    }
}

pub open spec fn syntax_empty(st: ParseState, tag: XmlTag) -> Result<ParseState, ErrorView> {
    match child_kind(tag.name@) {
        None => Ok(st),
        Some(k) => match st.current {
            None => Ok(st),
            Some(d) => match parsed_child(tag, k) {
                Err(e) => Err(e),
                Ok(c) => Ok(ParseState { current: Some(DefView { children: d.children.push(c), ..d }), ..st }),
            },
        },
    }
}

pub open spec fn syntax_text(st: ParseState, t: Seq<char>) -> ParseState {
    match st.capture {
        Some(TextView::Value(p, x)) => ParseState { capture: Some(TextView::Value(p, x + t)), ..st },
        Some(TextView::ValidValue(x)) => ParseState { capture: Some(TextView::ValidValue(x + t)), ..st },
        None => st,
    }
}

/// An entity reference inside a definition is a child of its own.
pub open spec fn entity_child(name: Seq<char>) -> ChildView {
    ChildView {
        kind: SyntaxChildKind::EntityRef,
        data_type: name,
        name: None,
        min_size: None,
        max_size: None,
        min_num: None,
        max_num: None,
    }
}

pub open spec fn syntax_ref(st: ParseState, name: Seq<char>) -> ParseState {
    match st.current {
        None => st,
        Some(d) => ParseState { current: Some(DefView { children: d.children.push(entity_child(name)), ..d }), ..st },
    }
}

pub open spec fn syntax_end(st: ParseState, n: Seq<char>) -> Result<ParseState, ErrorView> {
    if definition_kind(n) is Some {
        match st.current {
            None => Err(protocol_error("protocol definition stack underflow"@)),
            Some(d) => Ok(ParseState { defs: st.defs.insert(d.id, d), current: None, ..st }),
        }
    } else if n == "valids"@ {
        match st.valids {
            None => Err(protocol_error("protocol valids stack underflow"@)),
            Some(v) => Ok(
                ParseState {
                    valids: None,
                    current: match st.current {
                        Some(d) => Some(DefView { valids: d.valids.push(v), ..d }),
                        None => None,
                    },
                    ..st
                },
            ),
        }
    } else if n == "validvalue"@ {
        let st1 = ParseState { capture: None, ..st };
        match st.capture {
            Some(TextView::ValidValue(t)) => match st.valids {
                Some(v) => Ok(ParseState { valids: Some(ValidsView { values: v.values.push(t), ..v }), ..st1 }),
                None => Ok(st1),
            },
            _ => Ok(st1),
        }
    } else if n == "value"@ {
        let st1 = ParseState { capture: None, ..st };
        match st.capture {
            Some(TextView::Value(p, t)) => match st.current {
                Some(d) => Ok(ParseState { current: Some(DefView { values: d.values.push((p, t)), ..d }), ..st1 }),
                None => Ok(st1),
            },
            _ => Ok(st1),
        }
    } else {
        Ok(st)
    }
}

/// One event of the specification.
pub open spec fn syntax_step(st: ParseState, e: XmlEvent) -> Result<ParseState, ErrorView> {
    match e {
        XmlEvent::Start(tag) => syntax_start(st, tag),
        XmlEvent::Empty(tag) => syntax_empty(st, tag),
        XmlEvent::Text(t) => Ok(syntax_text(st, t@)),
        XmlEvent::GeneralRef(r) => Ok(syntax_ref(st, r@)),
        XmlEvent::End(n) => syntax_end(st, n@),
        _ => Ok(st),
    }
}

/// The error for a document of protocol version `version` that is not
/// well-formed; `what` names what was read.
pub open spec fn spec_read_error(version: Seq<char>, what: Seq<char>, m: Seq<char>) -> ErrorView {
    ErrorView {
        kind: HbciErrorKind::Protocol,
        message: "failed to parse HBCI "@ + version + what,
        source: Some(m),
    }
}

/// The definitions read from events, from state `st`: those completed at
/// the end of the document, or the first error.
pub open spec fn syntax_fold(events: Seq<XmlEvent>, st: ParseState, version: Seq<char>) -> Result<
    Map<Seq<char>, DefView>,
    ErrorView,
>
    decreases events.len(),
{
    if events.len() == 0 {
        Ok(st.defs)
    } else {
        match events[0] {
            XmlEvent::Eof => Ok(st.defs),
            XmlEvent::Error(m) => Err(spec_read_error(version, " protocol syntax"@, m@)),
            _ => match syntax_step(st, events[0]) {
                Err(e) => Err(e),
                Ok(s2) => syntax_fold(events.drop_first(), s2, version),
            },
        }
    }
}

enum TextCapture {
    Value { path: String, text: String },
    ValidValue(String),
}

spec fn capture_view(c: Option<TextCapture>) -> Option<TextView> {
    match c {
        None => None,
        Some(TextCapture::Value { path, text }) => Some(TextView::Value(path@, text@)),
        Some(TextCapture::ValidValue(t)) => Some(TextView::ValidValue(t@)),
    }
}

/// Reads the events of a specification into a syntax.
struct SyntaxParser {
    syntax: ProtocolSyntax,
    current: Option<SyntaxDefinition>,
    valids: Option<SyntaxValidSet>,
    capture: Option<TextCapture>,
}

impl View for SyntaxParser {
    type V = ParseState;

    closed spec fn view(&self) -> ParseState {
        ParseState {
            defs: def_views(self.syntax.defs()),
            current: match self.current {
                Some(d) => Some(def_view(d)),
                None => None,
            },
            valids: match self.valids {
                Some(v) => Some(valids_view(v)),
                None => None,
            },
            capture: capture_view(self.capture),
        }
    }
}

proof fn lemma_def_views_insert(m: Map<Seq<char>, SyntaxDefinition>, d: SyntaxDefinition)
    ensures
        def_views(m.insert(d.id@, d)) == def_views(m).insert(d.id@, def_view(d)),
{
    assert(def_views(m.insert(d.id@, d)) =~= def_views(m).insert(d.id@, def_view(d)));
}

fn attr_of(tag: &XmlTag, name: &str) -> (r: HbciResult<Option<String>>)
    ensures
        match syntax_attr(*tag, name@) {
            Ok(v) => r matches Ok(x) && opt_view(x) == v,
            Err(e) => r matches Err(x) && x@ == e,
        },
{
    tag_attr(tag, name, "failed to parse XML attribute", "failed to decode XML attribute")
}

fn required_attr(tag: &XmlTag, name: &str) -> (r: HbciResult<String>)
    ensures
        match syntax_required(*tag, name@) {
            Ok(v) => r matches Ok(x) && x@ == v,
            Err(e) => r matches Err(x) && x@ == e,
        },
{
    match attr_of(tag, name) {
        Err(e) => Err(e),
        Ok(Some(v)) => Ok(v),
        Ok(None) => {
            let mut m = "protocol element ".to_string();
            append(&mut m, tag.name.as_str());
            append(&mut m, " is missing required ");
            append(&mut m, name);
            append(&mut m, " attribute");
            Err(HbciError::new(HbciErrorKind::Protocol, m.as_str()))
        },
    }
}

fn flag(tag: &XmlTag, name: &str) -> (r: HbciResult<bool>)
    ensures
        match flag_attr(*tag, name@) {
            Ok(v) => r == Ok::<bool, HbciError>(v),
            Err(e) => r matches Err(x) && x@ == e,
        },
{
    match attr_of(tag, name) {
        Err(e) => Err(e),
        Ok(Some(v)) => Ok(str_eq(v.as_str(), "1")),
        Ok(None) => Ok(false),
    }
}

fn start_definition(tag: &XmlTag, kind: DefinitionKind) -> (r: HbciResult<SyntaxDefinition>)
    ensures
        match started_definition(*tag, kind) {
            Ok(d) => r matches Ok(x) && def_view(x) == d,
            Err(e) => r matches Err(x) && x@ == e,
        },
{
    let id = match required_attr(tag, "id") {
        Ok(v) => v,
        Err(e) => {
            return Err(e);
        },
    };
    let nr = match flag(tag, "needsRequestTag") {
        Ok(v) => v,
        Err(e) => {
            return Err(e);
        },
    };
    let ds = match flag(tag, "dontsign") {
        Ok(v) => v,
        Err(e) => {
            return Err(e);
        },
    };
    let dc = match flag(tag, "dontcrypt") {
        Ok(v) => v,
        Err(e) => {
            return Err(e);
        },
    };
    let mut d = SyntaxDefinition::new(kind, id);
    d.needs_request_tag = nr;
    d.dont_sign = ds;
    d.dont_crypt = dc;
    assert(d.children@.map_values(|c: SyntaxChild| child_view(c)) =~= seq![]);
    assert(d.values@.map_values(|v: SyntaxValue| (v.path@, v.value@)) =~= seq![]);
    assert(d.valids@.map_values(|s: SyntaxValidSet| valids_view(s)) =~= seq![]);
    Ok(d)
}

fn parse_child(tag: &XmlTag, kind: SyntaxChildKind) -> (r: HbciResult<SyntaxChild>)
    ensures
        match parsed_child(*tag, kind) {
            Ok(c) => r matches Ok(x) && child_view(x) == c,
            Err(e) => r matches Err(x) && x@ == e,
        },
{
    let t = match attr_of(tag, "type") {
        Ok(v) => v,
        Err(e) => {
            return Err(e);
        },
    };
    let n = match attr_of(tag, "name") {
        Ok(v) => v,
        Err(e) => {
            return Err(e);
        },
    };
    let data_type = match &t {
        Some(x) => x.clone(),
        None => match &n {
            Some(x) => x.clone(),
            None => {
                return Err(HbciError::new(HbciErrorKind::Protocol, "protocol child is missing type/name attribute"));
            },
        },
    };
    let min_size = match attr_of(tag, "minsize") {
        Ok(v) => v,
        Err(e) => {
            return Err(e);
        },
    };
    let max_size = match attr_of(tag, "maxsize") {
        Ok(v) => v,
        Err(e) => {
            return Err(e);
        },
    };
    let min_num = match attr_of(tag, "minnum") {
        Ok(v) => v,
        Err(e) => {
            return Err(e);
        },
    };
    let max_num = match attr_of(tag, "maxnum") {
        Ok(v) => v,
        Err(e) => {
            return Err(e);
        },
    };
    Ok(SyntaxChild { kind, data_type, name: n, min_size, max_size, min_num, max_num })
}

impl SyntaxParser {
    spec fn wf(&self) -> bool {
        self.syntax.ids_match()
    }

    fn new(version: &str) -> (p: Self)
        ensures
            p@ == parse_initial(),
            p.wf(),
            p.syntax.version_view() == version@,
    {
        let p = SyntaxParser { syntax: ProtocolSyntax::new(version), current: None, valids: None, capture: None };
        assert(p@.defs =~= Map::empty());
        p
    }

    /// Appends a child to the open definition, if there is one.
    fn push_child(&mut self, c: SyntaxChild)
        ensures
            final(self)@ == (match old(self)@.current {
                None => old(self)@,
                Some(d) => ParseState { current: Some(DefView { children: d.children.push(child_view(c)), ..d }), ..old(self)@ },
            }),
            final(self).syntax == old(self).syntax,
    {
        match self.current.take() {
            None => {},
            Some(mut d) => {
                let ghost before = d.children@;
                let ghost cg = c;
                d.children.push(c);
                assert(d.children@.map_values(|x: SyntaxChild| child_view(x)) =~= before.map_values(|x: SyntaxChild| child_view(x)).push(child_view(cg)));
                self.current = Some(d);
            },
        }
    }

    fn start(&mut self, tag: &XmlTag) -> (r: HbciResult<()>)
        ensures
            match syntax_start(old(self)@, *tag) {
                Ok(s) => r is Ok && final(self)@ == s,
                Err(e) => r matches Err(x) && x@ == e,
            },
            final(self).syntax == old(self).syntax,
    {
        let n = tag.name.as_str();
        let kind = if str_eq(n, "DEGdef") {
            Some(DefinitionKind::Deg)
        } else if str_eq(n, "SEGdef") {
            Some(DefinitionKind::Seg)
        } else if str_eq(n, "SFdef") {
            Some(DefinitionKind::Sf)
        } else if str_eq(n, "MSGdef") {
            Some(DefinitionKind::Msg)
        } else {
            None
        };
        match kind {
            Some(k) => {
                let d = match start_definition(tag, k) {
                    Ok(d) => d,
                    Err(e) => {
                        return Err(e);
                    },
                };
                self.current = Some(d);
            },
            None => {
                if str_eq(n, "valids") {
                    let path = match required_attr(tag, "path") {
                        Ok(p) => p,
                        Err(e) => {
                            return Err(e);
                        },
                    };
                    let v = SyntaxValidSet { path, values: Vec::new() };
                    assert(v.values@.map_values(|x: String| x@) =~= seq![]);
                    self.valids = Some(v);
                } else if str_eq(n, "validvalue") {
                    self.capture = Some(TextCapture::ValidValue(String::new()));
                } else if str_eq(n, "value") {
                    let path = match required_attr(tag, "path") {
                        Ok(p) => p,
                        Err(e) => {
                            return Err(e);
                        },
                    };
                    self.capture = Some(TextCapture::Value { path, text: String::new() });
                }
            },
        }
        Ok(())
    }

    fn empty(&mut self, tag: &XmlTag) -> (r: HbciResult<()>)
        ensures
            match syntax_empty(old(self)@, *tag) {
                Ok(s) => r is Ok && final(self)@ == s,
                Err(e) => r matches Err(x) && x@ == e,
            },
            final(self).syntax == old(self).syntax,
    {
        let n = tag.name.as_str();
        let kind = if str_eq(n, "DE") {
            SyntaxChildKind::De
        } else if str_eq(n, "DEG") {
            SyntaxChildKind::Deg
        } else if str_eq(n, "SEG") {
            SyntaxChildKind::Seg
        } else if str_eq(n, "SF") {
            SyntaxChildKind::Sf
        } else {
            return Ok(());
        };
        if self.current.is_none() {
            return Ok(());
        }
        let c = match parse_child(tag, kind) {
            Ok(c) => c,
            Err(e) => {
                return Err(e);
            },
        };
        self.push_child(c);
        Ok(())
    }

    fn text(&mut self, t: &String)
        ensures
            final(self)@ == syntax_text(old(self)@, t@),
            final(self).syntax == old(self).syntax,
    {
        match self.capture.take() {
            None => {},
            Some(TextCapture::Value { path, mut text }) => {
                append(&mut text, t.as_str());
                self.capture = Some(TextCapture::Value { path, text });
            },
            Some(TextCapture::ValidValue(mut text)) => {
                append(&mut text, t.as_str());
                self.capture = Some(TextCapture::ValidValue(text));
            },
        }
    }

    fn entity(&mut self, name: &String)
        ensures
            final(self)@ == syntax_ref(old(self)@, name@),
            final(self).syntax == old(self).syntax,
    {
        let c = SyntaxChild {
            kind: SyntaxChildKind::EntityRef,
            data_type: name.clone(),
            name: None,
            min_size: None,
            max_size: None,
            min_num: None,
            max_num: None,
        };
        self.push_child(c);
    }

    fn end(&mut self, n: &str) -> (r: HbciResult<()>)
        requires
            old(self).wf(),
        ensures
            match syntax_end(old(self)@, n@) {
                Ok(s) => r is Ok && final(self)@ == s,
                Err(e) => r matches Err(x) && x@ == e,
            },
            final(self).wf(),
            final(self).syntax.version_view() == old(self).syntax.version_view(),
    {
        if str_eq(n, "DEGdef") || str_eq(n, "SEGdef") || str_eq(n, "SFdef") || str_eq(n, "MSGdef") {
            match self.current.take() {
                None => Err(HbciError::new(HbciErrorKind::Protocol, "protocol definition stack underflow")),
                Some(d) => {
                    let ghost before = self.syntax.defs();
                    let ghost dg = d;
                    self.syntax.add_definition(d);
                    proof {
                        lemma_def_views_insert(before, dg);
                    }
                    Ok(())
                },
            }
        } else if str_eq(n, "valids") {
            match self.valids.take() {
                None => Err(HbciError::new(HbciErrorKind::Protocol, "protocol valids stack underflow")),
                Some(v) => {
                    match self.current.take() {
                        None => {},
                        Some(mut d) => {
                            let ghost before = d.valids@;
                            let ghost vg = v;
                            d.valids.push(v);
                            assert(d.valids@.map_values(|x: SyntaxValidSet| valids_view(x)) =~= before.map_values(|x: SyntaxValidSet| valids_view(x)).push(valids_view(vg)));
                            self.current = Some(d);
                        },
                    }
                    Ok(())
                },
            }
        } else if str_eq(n, "validvalue") {
            match self.capture.take() {
                Some(TextCapture::ValidValue(t)) => {
                    match self.valids.take() {
                        None => {},
                        Some(mut v) => {
                            let ghost before = v.values@;
                            let ghost tg = t@;
                            v.values.push(t);
                            assert(v.values@.map_values(|x: String| x@) =~= before.map_values(|x: String| x@).push(tg));
                            self.valids = Some(v);
                        },
                    }
                },
                _ => {},
            }
            Ok(())
        } else if str_eq(n, "value") {
            match self.capture.take() {
                Some(TextCapture::Value { path, text }) => {
                    match self.current.take() {
                        None => {},
                        Some(mut d) => {
                            let ghost before = d.values@;
                            let sv = SyntaxValue { path, value: text };
                            let ghost svg = sv;
                            d.values.push(sv);
                            assert(d.values@.map_values(|x: SyntaxValue| (x.path@, x.value@)) =~= before.map_values(|x: SyntaxValue| (x.path@, x.value@)).push((svg.path@, svg.value@)));
                            self.current = Some(d);
                        },
                    }
                },
                _ => {},
            }
            Ok(())
        } else {
            Ok(())
        }
    }
}

impl ProtocolSyntax {
    /// The syntax of protocol version `version` from the events of its
    /// specification document.
    pub fn from_events(version: &str, events: &[XmlEvent]) -> (r: HbciResult<ProtocolSyntax>)
        ensures
            match syntax_fold(events@, parse_initial(), version@) {
                Ok(m) => r matches Ok(s) && s.version_view() == version@ && s.ids_match() && def_views(s.defs()) == m,
                Err(e) => r matches Err(x) && x@ == e,
            },
    {
        let mut p = SyntaxParser::new(version);
        let mut i: usize = 0;
        assert(events@.skip(0) =~= events@);
        while i < events.len()
            invariant
                i <= events@.len(),
                p.wf(),
                p.syntax.version_view() == version@,
                syntax_fold(events@, parse_initial(), version@) == syntax_fold(events@.skip(i as int), p@, version@),
            decreases events.len() - i,
        {
            assert(events@.skip(i as int)[0] == events@[i as int]);
            assert(events@.skip(i as int).drop_first() =~= events@.skip(i + 1));
            let step = match &events[i] {
                XmlEvent::Eof => {
                    return Ok(p.syntax);
                },
                XmlEvent::Error(m) => {
                    let mut msg = "failed to parse HBCI ".to_string();
                    append(&mut msg, version);
                    append(&mut msg, " protocol syntax");
                    return Err(HbciError::with_source(HbciErrorKind::Protocol, msg.as_str(), m.as_str()));
                },
                XmlEvent::Start(tag) => p.start(tag),
                XmlEvent::Empty(tag) => p.empty(tag),
                XmlEvent::Text(t) => {
                    p.text(t);
                    Ok(())
                },
                XmlEvent::GeneralRef(name) => {
                    p.entity(name);
                    Ok(())
                },
                XmlEvent::End(n) => p.end(n.as_str()),
                XmlEvent::Other => Ok(()),
            };
            match step {
                Err(e) => {
                    return Err(e);
                },
                Ok(()) => {},
            }
            i += 1;
        }
        Ok(p.syntax)
    }
}


/// `c` more than a count, or the error.
pub open spec fn add_count(r: Result<nat, ErrorView>, c: nat) -> Result<nat, ErrorView> {
    match r {
        Ok(n) => Ok(n + c),
        Err(e) => Err(e),
    }
}

/// The number of start and empty tags named `name` among the events, up to
/// the end of the document; or the error where it is not well-formed.
pub open spec fn tag_count(events: Seq<XmlEvent>, name: Seq<char>, version: Seq<char>) -> Result<nat, ErrorView>
    decreases events.len(),
{
    if events.len() == 0 {
        Ok(0)
    } else {
        match events[0] {
            XmlEvent::Eof => Ok(0nat),
            XmlEvent::Error(m) => Err(spec_read_error(version, " protocol spec"@, m@)),
            XmlEvent::Start(t) => add_count(
                tag_count(events.drop_first(), name, version),
                if t.name@ == name { 1nat } else { 0nat },
            ),
            XmlEvent::Empty(t) => add_count(
                tag_count(events.drop_first(), name, version),
                if t.name@ == name { 1nat } else { 0nat },
            ),
            _ => tag_count(events.drop_first(), name, version),
        }
    }
}

/// Counts the start and empty tags named `name`.
pub fn count_tags(events: &[XmlEvent], name: &str, version: &str) -> (r: HbciResult<usize>)
    ensures
        match tag_count(events@, name@, version@) {
            Ok(n) => r matches Ok(x) && x == n,
            Err(e) => r matches Err(x) && x@ == e,
        },
{
    let mut count: usize = 0;
    let mut i: usize = 0;
    assert(events@.skip(0) =~= events@);
    while i < events.len()
        invariant
            i <= events@.len(),
            count <= i,
            tag_count(events@, name@, version@) == add_count(tag_count(events@.skip(i as int), name@, version@), count as nat),
        decreases events.len() - i,
    {
        assert(events@.skip(i as int)[0] == events@[i as int]);
        assert(events@.skip(i as int).drop_first() =~= events@.skip(i + 1));
        match &events[i] {
            XmlEvent::Eof => {
                return Ok(count);
            },
            XmlEvent::Error(m) => {
                let mut msg = "failed to parse HBCI ".to_string();
                append(&mut msg, version);
                append(&mut msg, " protocol spec");
                return Err(HbciError::with_source(HbciErrorKind::Protocol, msg.as_str(), m.as_str()));
            },
            XmlEvent::Start(t) => {
                if str_eq(t.name.as_str(), name) {
                    count += 1;
                }
            },
            XmlEvent::Empty(t) => {
                if str_eq(t.name.as_str(), name) {
                    count += 1;
                }
            },
            _ => {},
        }
        i += 1;
    }
    Ok(count)
}

/// The specification document of a protocol version.
#[derive(Debug, Clone, PartialEq, Eq)]
pub struct ProtocolSpec {
    pub version: String,
    pub xml: String,
}

/// The protocol versions whose specification the library knows.
pub open spec fn supported_version(v: Seq<char>) -> bool {
    v == "201"@ || v == "210"@ || v == "220"@ || v == "300"@ || v == "plus"@
}

/// The specification of protocol version `version`, whose document `xml`
/// the caller has read from the bundled resources; other versions are not
/// supported.
pub fn load_protocol_spec(version: &str, xml: &str) -> (r: HbciResult<ProtocolSpec>)
    ensures
        supported_version(version@) ==> (r matches Ok(s) && s.version@ == version@ && s.xml@ == xml@),
        !supported_version(version@) ==> (r matches Err(e) && e@ == (ErrorView {
            kind: HbciErrorKind::Unsupported,
            message: "unsupported HBCI version: "@ + version@,
            source: None,
        })),
{
    if str_eq(version, "201") || str_eq(version, "210") || str_eq(version, "220") || str_eq(version, "300")
        || str_eq(version, "plus") {
        Ok(ProtocolSpec { version: version.to_string(), xml: xml.to_string() })
    } else {
        let mut m = "unsupported HBCI version: ".to_string();
        append(&mut m, version);
        Err(HbciError::new(HbciErrorKind::Unsupported, m.as_str()))
    }
}

impl ProtocolSpec {
    /// The syntax definitions of the document.
    pub fn parse_syntax(&self) -> (r: HbciResult<ProtocolSyntax>)
        ensures
            match syntax_fold(xml_events_of(self.xml@), parse_initial(), self.version@) {
                Ok(m) => r matches Ok(s) && s.version_view() == self.version@ && s.ids_match() && def_views(s.defs()) == m,
                Err(e) => r matches Err(x) && x@ == e,
            },
    {
        let events = xml_events(self.xml.as_str());
        let r = ProtocolSyntax::from_events(self.version.as_str(), events.as_slice());
        assert(match syntax_fold(events@, parse_initial(), self.version@) {
            Ok(m) => r matches Ok(s) && s.version_view() == self.version@ && s.ids_match() && def_views(s.defs()) == m,
            Err(e) => r matches Err(x) && x@ == e,
        });
        r
    }

    fn definition_count(&self, element_name: &str) -> (r: HbciResult<usize>)
        ensures
            match tag_count(xml_events_of(self.xml@), element_name@, self.version@) {
                Ok(n) => r matches Ok(x) && x == n,
                Err(e) => r matches Err(x) && x@ == e,
            },
    {
        let events = xml_events(self.xml.as_str());
        let r = count_tags(events.as_slice(), element_name, self.version.as_str());
        assert(match tag_count(events@, element_name@, self.version@) {
            Ok(n) => r matches Ok(x) && x == n,
            Err(e) => r matches Err(x) && x@ == e,
        });
        r
    }

    /// The number of data element group definitions in the document.
    pub fn deg_definition_count(&self) -> (r: HbciResult<usize>)
        ensures
            match tag_count(xml_events_of(self.xml@), "DEGdef"@, self.version@) {
                Ok(n) => r matches Ok(x) && x == n,
                Err(e) => r matches Err(x) && x@ == e,
            },
    {
        self.definition_count("DEGdef")
    }

    /// The number of segment definitions in the document.
    pub fn seg_definition_count(&self) -> (r: HbciResult<usize>)
        ensures
            match tag_count(xml_events_of(self.xml@), "SEGdef"@, self.version@) {
                Ok(n) => r matches Ok(x) && x == n,
                Err(e) => r matches Err(x) && x@ == e,
            },
    {
        self.definition_count("SEGdef")
    }

    /// The number of segment sequence definitions in the document.
    pub fn sf_definition_count(&self) -> (r: HbciResult<usize>)
        ensures
            match tag_count(xml_events_of(self.xml@), "SFdef"@, self.version@) {
                Ok(n) => r matches Ok(x) && x == n,
                Err(e) => r matches Err(x) && x@ == e,
            },
    {
        self.definition_count("SFdef")
    }

    /// The number of message definitions in the document.
    pub fn msg_definition_count(&self) -> (r: HbciResult<usize>)
        ensures
            match tag_count(xml_events_of(self.xml@), "MSGdef"@, self.version@) {
                Ok(n) => r matches Ok(x) && x == n,
                Err(e) => r matches Err(x) && x@ == e,
            },
    {
        self.definition_count("MSGdef")
    }
}

} // verus!
