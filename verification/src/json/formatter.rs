//! The default event formatter: renders one diagnostic event, together with
//! its recorded fields and the ambient scope chain, into the fixed JSON
//! document schema.

use vstd::prelude::*;
use vstd::string::StringExecFns;

use crate::json::encode::{
    append_json_string, append_value, enc_arr, enc_entries_of, enc_entry, enc_obj,
    render_arr_parts, render_entry, render_obj_parts, str_json, value_v_chars, views_of,
};
use crate::json::storage::{lookup_entries, PrimaJsonVisitor, StoreEntries};
use crate::json::value::ValueV;
use crate::subscriber::{view_opt_string, ContextInfo};
use crate::text::{dec_uint_chars, spec_has_prefix, u64_to_string};

verus! {

/// Severity of a diagnostic event.
#[derive(Clone, Copy, PartialEq, Eq, Structural, Debug)]
pub enum Level {
    Trace,
    Debug,
    Info,
    Warn,
    Error,
}

impl Level {
    /// Lowercase name of the severity, as it appears in the output document.
    pub open spec fn spec_str(self) -> Seq<char> {
        match self {
            Level::Trace => "trace"@,
            Level::Debug => "debug"@,
            Level::Info => "info"@,
            Level::Warn => "warn"@,
            Level::Error => "error"@,
        }
    }

    /// Lowercase name of the severity.
    pub fn as_str(&self) -> (r: &'static str)
        ensures
            r@ == self.spec_str(),
    {
        match self {
            Level::Trace => "trace",
            Level::Debug => "debug",
            Level::Info => "info",
            Level::Warn => "warn",
            Level::Error => "error",
        }
    }
}

/// One scope of the active chain, as handed to a formatting call: its static
/// callsite description and its own recorded fields.
pub struct SpanData {
    pub name: String,
    pub target: String,
    pub file: Option<String>,
    pub line: Option<u32>,
    pub fields: PrimaJsonVisitor,
}

/// One diagnostic event, as handed to a formatting call.
pub struct EventData {
    pub level: Level,
    pub target: String,
    pub file: Option<String>,
    pub line: Option<u32>,
    pub fields: PrimaJsonVisitor,
}

/// The trace-correlation pair placed in the top-level `dd` object.
#[derive(Clone, Copy, PartialEq, Eq, Structural, Debug)]
pub struct DdContext {
    pub trace_id: u64,
    pub span_id: u64,
}

impl DdContext {
    /// Derives the correlation pair from a 128-bit trace identifier and a
    /// 64-bit span identifier, both read as big-endian integers: the trace
    /// identifier keeps its low 64 bits.
    pub fn from_ids(trace_id: u128, span_id: u64) -> (r: DdContext)
        ensures
            r.trace_id == trace_id % 0x1_0000_0000_0000_0000,
            r.span_id == span_id,
    {
        DdContext { trace_id: (trace_id % 0x1_0000_0000_0000_0000) as u64, span_id }
    }
}

/// The default formatter producing the fixed JSON schema.
pub struct DefaultEventFormatter;

/// The rendering of an optional number: the number, or `null`.
pub open spec fn opt_u32_chars(o: Option<u32>) -> Seq<char> {
    match o {
        Some(n) => dec_uint_chars(n as nat),
        None => "null"@,
    }
}

/// The rendering of an optional string: a JSON string, or `null`.
pub open spec fn opt_str_chars(o: Option<Seq<char>>) -> Seq<char> {
    match o {
        Some(s) => str_json(s),
        None => "null"@,
    }
}

/// The entries of a store, rendered in order.
pub open spec fn field_entries_all(es: StoreEntries) -> Seq<(Seq<char>, Seq<char>)> {
    es.map_values(|e: (Seq<char>, ValueV)| (e.0, value_v_chars(e.1)))
}

/// The members of one scope's descriptor object: its callsite description,
/// then every field recorded on it.
pub open spec fn span_entries(s: SpanData) -> Seq<(Seq<char>, Seq<char>)> {
    seq![
        ("name"@, str_json(s.name@)),
        ("line"@, opt_u32_chars(s.line)),
        ("target"@, str_json(s.target@)),
        ("file"@, opt_str_chars(view_opt_string(s.file))),
    ] + field_entries_all(s.fields.entries())
}

/// One scope's descriptor object.
pub open spec fn span_chars(s: SpanData) -> Seq<char> {
    enc_obj(span_entries(s))
}

/// Whether an event field key appears under `metadata`: everything but the
/// primary message and the reserved bridging keys.
pub open spec fn is_custom_key(k: Seq<char>) -> bool {
    k != "message"@ && !spec_has_prefix(k, "log."@)
}

/// The entries whose keys appear under `metadata`, in storage order.
pub open spec fn custom_entries(es: StoreEntries) -> StoreEntries
    decreases es.len(),
{
    if es.len() == 0 {
        Seq::empty()
    } else {
        let rest = custom_entries(es.drop_last());
        if is_custom_key(es.last().0) {
            rest.push(es.last())
        } else {
            rest
        }
    }
}

/// The `target` the document reports: the reserved bridging field when it
/// carries text, else the event's natural target.
pub open spec fn event_target_chars(e: EventData) -> Seq<char> {
    match lookup_entries(e.fields.entries(), "log.target"@) {
        Some(v) => match v.as_text() {
            Some(t) => t,
            None => e.target@,
        },
        None => e.target@,
    }
}

/// The `file` the document reports: the natural source file, else the
/// reserved bridging field, else a dash.
pub open spec fn event_file_chars(e: EventData) -> Seq<char> {
    match e.file {
        Some(f) => f@,
        None => match lookup_entries(e.fields.entries(), "log.file"@) {
            Some(v) => match v.as_text() {
                Some(t) => t,
                None => "-"@,
            },
            None => "-"@,
        },
    }
}

/// The `line` the document reports: the natural source line, else the
/// reserved bridging field read as a number, else zero.
pub open spec fn event_line_num(e: EventData) -> int {
    match e.line {
        Some(n) => n as int,
        None => match lookup_entries(e.fields.entries(), "log.line"@) {
            Some(v) => match v.as_u32() {
                Some(n) => n,
                None => 0,
            },
            None => 0,
        },
    }
}

/// The leading members of the `metadata` object.
pub open spec fn meta_fixed_entries(event: EventData, environment: Seq<char>) -> Seq<
    (Seq<char>, Seq<char>),
> {
    seq![
        ("environment"@, str_json(environment)),
        ("target"@, str_json(event_target_chars(event))),
        ("file"@, str_json(event_file_chars(event))),
        ("line"@, dec_uint_chars(event_line_num(event) as nat)),
    ]
}

/// The rendered descriptor of each scope of the chain, in chain order.
pub open spec fn spans_pieces(chain: Seq<SpanData>) -> Seq<Seq<char>> {
    chain.map_values(|s: SpanData| span_chars(s))
}

/// The `current_span` member: the innermost active scope, when one exists.
pub open spec fn current_span_entries(chain: Seq<SpanData>) -> Seq<(Seq<char>, Seq<char>)> {
    if chain.len() > 0 {
        seq![("current_span"@, span_chars(chain.last()))]
    } else {
        Seq::empty()
    }
}

/// All members of the `metadata` object, in order: the callsite description,
/// the event's other fields, the innermost scope when one exists, and the
/// whole chain root-first.
pub open spec fn metadata_entries(event: EventData, chain: Seq<SpanData>, environment: Seq<char>) -> Seq<
    (Seq<char>, Seq<char>),
> {
    meta_fixed_entries(event, environment) + field_entries_all(custom_entries(event.fields.entries()))
        + current_span_entries(chain) + seq![("spans"@, enc_arr(spans_pieces(chain)))]
}

/// The `metadata` object.
pub open spec fn metadata_chars(event: EventData, chain: Seq<SpanData>, environment: Seq<char>) -> Seq<
    char,
> {
    enc_obj(metadata_entries(event, chain, environment))
}

/// The `message` member: present exactly when the event recorded one.
pub open spec fn message_entries(es: StoreEntries) -> Seq<(Seq<char>, Seq<char>)> {
    match lookup_entries(es, "message"@) {
        Some(v) => seq![("message"@, value_v_chars(v))],
        None => Seq::empty(),
    }
}

/// The members of the trace-correlation object.
pub open spec fn dd_obj_entries(d: DdContext) -> Seq<(Seq<char>, Seq<char>)> {
    seq![
        ("trace_id"@, dec_uint_chars(d.trace_id as nat)),
        ("span_id"@, dec_uint_chars(d.span_id as nat)),
    ]
}

/// The `dd` member: present exactly when a trace context was handed in.
pub open spec fn dd_entries(dd: Option<DdContext>) -> Seq<(Seq<char>, Seq<char>)> {
    match dd {
        Some(d) => seq![("dd"@, enc_obj(dd_obj_entries(d)))],
        None => Seq::empty(),
    }
}

/// All members of the output document, in order.
pub open spec fn document_entries(
    ts: Seq<char>,
    info: ContextInfo,
    event: EventData,
    chain: Seq<SpanData>,
    dd: Option<DdContext>,
) -> Seq<(Seq<char>, Seq<char>)> {
    seq![
        ("timestamp"@, str_json(ts)),
        ("level"@, str_json(event.level.spec_str())),
        ("country"@, opt_str_chars(info.spec_country())),
        ("environment"@, str_json(info.spec_environment())),
        ("type"@, str_json(info.spec_app_name())),
    ] + message_entries(event.fields.entries()) + seq![
        ("metadata"@, metadata_chars(event, chain, info.spec_environment())),
    ] + dd_entries(dd)
}

/// The complete output document for one event.
pub open spec fn document_chars(
    ts: Seq<char>,
    info: ContextInfo,
    event: EventData,
    chain: Seq<SpanData>,
    dd: Option<DdContext>,
) -> Seq<char> {
    enc_obj(document_entries(ts, info, event, chain, dd))
}

/// A store entry whose key is reported under `metadata` is among the
/// entries the document keeps.
proof fn lemma_custom_contains(es: StoreEntries, i: int)
    requires
        0 <= i < es.len(),
        is_custom_key(es[i].0),
    ensures
        custom_entries(es).contains(es[i]),
    decreases es.len(),
{
    if i == es.len() - 1 {
        assert(es.last() == es[i]);
        let c = custom_entries(es);
        assert(c.last() == es[i]);
        assert(c.contains(es[i])) by {
            assert(c[c.len() - 1] == es[i]);
        }
    } else {
        assert(es.drop_last()[i] == es[i]);
        lemma_custom_contains(es.drop_last(), i);
        let c = custom_entries(es.drop_last());
        let j = choose|j: int| 0 <= j < c.len() && c[j] == es[i];
        if is_custom_key(es.last().0) {
            assert(custom_entries(es)[j] == es[i]);
        } else {
            assert(custom_entries(es) == c);
        }
        assert(custom_entries(es).contains(es[i])) by {
            assert(custom_entries(es)[j] == es[i]);
        }
    }
}

/// Each member of `metadata` kept from the event's own fields stands in the
/// document with its recorded key and its canonical rendering.
proof fn lemma_metadata_contains_entry(
    event: EventData,
    chain: Seq<SpanData>,
    environment: Seq<char>,
    i: int,
)
    requires
        0 <= i < event.fields.entries().len(),
        is_custom_key(event.fields.entries()[i].0),
    ensures
        metadata_entries(event, chain, environment).contains(
            (event.fields.entries()[i].0, value_v_chars(event.fields.entries()[i].1)),
        ),
{
    let es = event.fields.entries();
    lemma_custom_contains(es, i);
    let c = custom_entries(es);
    let j = choose|j: int| 0 <= j < c.len() && c[j] == es[i];
    let m = metadata_entries(event, chain, environment);
    assert(field_entries_all(c)[j] == (es[i].0, value_v_chars(es[i].1)));
    assert(m[4 + j] == field_entries_all(c)[j]);
    assert(m.contains((es[i].0, value_v_chars(es[i].1)))) by {
        assert(m[4 + j] == (es[i].0, value_v_chars(es[i].1)));
    }
}

/// Every field key recorded on an event, except the primary message and the
/// reserved bridging keys, appears verbatim under `metadata`, bound to the
/// canonical rendering of its recorded value.
pub proof fn lemma_metadata_has_custom_fields(
    event: EventData,
    chain: Seq<SpanData>,
    environment: Seq<char>,
)
    ensures
        forall|i: int|
            0 <= i < event.fields.entries().len() && is_custom_key(
                #[trigger] event.fields.entries()[i].0,
            ) ==> metadata_entries(event, chain, environment).contains(
                (event.fields.entries()[i].0, value_v_chars(event.fields.entries()[i].1)),
            ),
{
    assert forall|i: int|
        0 <= i < event.fields.entries().len() && is_custom_key(
            #[trigger] event.fields.entries()[i].0,
        ) implies metadata_entries(event, chain, environment).contains(
        (event.fields.entries()[i].0, value_v_chars(event.fields.entries()[i].1)),
    ) by {
        lemma_metadata_contains_entry(event, chain, environment, i);
    }
}

/// A string recorded under a reported key stands in `metadata` as exactly
/// that string between quotes, its characters only escaped as JSON demands.
pub proof fn lemma_metadata_reports_string_field(
    event: EventData,
    chain: Seq<SpanData>,
    environment: Seq<char>,
    k: Seq<char>,
    v: Seq<char>,
)
    requires
        lookup_entries(event.fields.entries(), k) == Some(ValueV::Str(v)),
        is_custom_key(k),
    ensures
        metadata_entries(event, chain, environment).contains((k, str_json(v))),
{
    let es = event.fields.entries();
    crate::json::storage::lemma_lookup_index(es, k);
    let i = choose|i: int| 0 <= i < es.len() && #[trigger] es[i] == (k, lookup_entries(es, k)->0);
    assert(es[i] == (k, ValueV::Str(v)));
    lemma_metadata_contains_entry(event, chain, environment, i);
}

/// A boolean recorded under a reported key stands in `metadata` as the bare
/// boolean token, which is never the rendering of the like-named string.
pub proof fn lemma_metadata_reports_bool_field(
    event: EventData,
    chain: Seq<SpanData>,
    environment: Seq<char>,
    k: Seq<char>,
    b: bool,
)
    requires
        lookup_entries(event.fields.entries(), k) == Some(ValueV::Bool(b)),
        is_custom_key(k),
    ensures
        metadata_entries(event, chain, environment).contains(
            (k, if b { "true"@ } else { "false"@ }),
        ),
        value_v_chars(ValueV::Bool(b)) != str_json(if b { "true"@ } else { "false"@ }),
{
    let es = event.fields.entries();
    crate::json::storage::lemma_lookup_index(es, k);
    let i = choose|i: int| 0 <= i < es.len() && #[trigger] es[i] == (k, lookup_entries(es, k)->0);
    assert(es[i] == (k, ValueV::Bool(b)));
    lemma_metadata_contains_entry(event, chain, environment, i);
    let token = if b { "true"@ } else { "false"@ };
    assert(token != str_json(token)) by {
        reveal_strlit("true");
        reveal_strlit("false");
        assert(str_json(token)[0] == '"');
        assert(token[0] != '"');
        if token == str_json(token) {
            assert(token[0] == str_json(token)[0]);
        }
    }
}

/// The shape every output document has: its leading members in order, the
/// primary message exactly when one was recorded, the `metadata` member,
/// and inside it the `spans` array over the whole chain, root first.
pub proof fn lemma_document_structure(
    ts: Seq<char>,
    info: ContextInfo,
    event: EventData,
    chain: Seq<SpanData>,
    dd: Option<DdContext>,
)
    ensures
        document_entries(ts, info, event, chain, dd)[0] == ("timestamp"@, str_json(ts)),
        document_entries(ts, info, event, chain, dd)[1] == (
            "level"@,
            str_json(event.level.spec_str()),
        ),
        document_entries(ts, info, event, chain, dd)[4] == (
            "type"@,
            str_json(info.spec_app_name()),
        ),
        lookup_entries(event.fields.entries(), "message"@) matches Some(v) ==> document_entries(
            ts,
            info,
            event,
            chain,
            dd,
        )[5] == ("message"@, value_v_chars(v)),
        document_entries(ts, info, event, chain, dd)[5 + message_entries(
            event.fields.entries(),
        ).len() as int] == ("metadata"@, metadata_chars(event, chain, info.spec_environment())),
        metadata_entries(event, chain, info.spec_environment()).last() == (
            "spans"@,
            enc_arr(spans_pieces(chain)),
        ),
        forall|i: int|
            0 <= i < chain.len() ==> (#[trigger] spans_pieces(chain)[i]) == span_chars(chain[i]),
        chain.len() > 0 ==> {
            let m = metadata_entries(event, chain, info.spec_environment());
            m[m.len() - 2] == ("current_span"@, span_chars(chain.last()))
        },
{
    let d = document_entries(ts, info, event, chain, dd);
    let me = message_entries(event.fields.entries());
    assert(d[5 + me.len() as int] == ("metadata"@, metadata_chars(event, chain, info.spec_environment())));
    let m = metadata_entries(event, chain, info.spec_environment());
    assert(m.last() == ("spans"@, enc_arr(spans_pieces(chain))));
    if chain.len() > 0 {
        assert(m[m.len() - 2] == ("current_span"@, span_chars(chain.last())));
    }
}

/// An event with no active scope still yields a complete document: the
/// severity is reported, no `current_span` member is present, and `spans`
/// is the empty array.
pub proof fn lemma_document_without_scope(
    ts: Seq<char>,
    info: ContextInfo,
    event: EventData,
    dd: Option<DdContext>,
)
    ensures
        document_entries(ts, info, event, Seq::empty(), dd)[1] == (
            "level"@,
            str_json(event.level.spec_str()),
        ),
        current_span_entries(Seq::<SpanData>::empty()) == Seq::<(Seq<char>, Seq<char>)>::empty(),
        metadata_entries(event, Seq::empty(), info.spec_environment()).last() == (
            "spans"@,
            enc_arr(Seq::<Seq<char>>::empty()),
        ),
        enc_arr(Seq::<Seq<char>>::empty()) == seq!['[', ']'],
{
    assert(current_span_entries(Seq::<SpanData>::empty()) =~= Seq::<(Seq<char>, Seq<char>)>::empty());
    assert(Seq::<SpanData>::empty().map_values(|s: SpanData| span_chars(s)) =~= Seq::<
        Seq<char>,
    >::empty());
    assert(enc_arr(Seq::<Seq<char>>::empty()) =~= seq!['[', ']']);
}

fn render_json_str(s: &str) -> (r: String)
    ensures
        r@ == str_json(s@),
{
    let mut out = String::new();
    append_json_string(&mut out, s);
    proof {
        assert(out@ =~= str_json(s@));
    }
    out
}

fn render_value_str(v: &crate::json::value::Value) -> (r: String)
    ensures
        r@ == value_v_chars(v.view_v()),
{
    let mut out = String::new();
    append_value(&mut out, v);
    proof {
        assert(out@ =~= value_v_chars(v.view_v()));
    }
    out
}

fn render_opt_u32(o: &Option<u32>) -> (r: String)
    ensures
        r@ == opt_u32_chars(*o),
{
    match o {
        Some(n) => u64_to_string(*n as u64),
        None => String::from_str("null"),
    }
}

fn render_opt_str(o: &Option<String>) -> (r: String)
    ensures
        r@ == opt_str_chars(view_opt_string(*o)),
{
    match o {
        Some(s) => render_json_str(s.as_str()),
        None => String::from_str("null"),
    }
}

/// Renders one scope's descriptor object.
fn render_span(s: &SpanData) -> (r: String)
    ensures
        r@ == span_chars(*s),
{
    let mut parts: Vec<String> = Vec::new();
    let v0 = render_json_str(s.name.as_str());
    parts.push(render_entry("name", v0.as_str()));
    let v1 = render_opt_u32(&s.line);
    parts.push(render_entry("line", v1.as_str()));
    let v2 = render_json_str(s.target.as_str());
    parts.push(render_entry("target", v2.as_str()));
    let v3 = render_opt_str(&s.file);
    parts.push(render_entry("file", v3.as_str()));
    proof {
        assert(span_entries(*s)[0] == ("name"@, str_json(s.name@)));
        assert(span_entries(*s)[1] == ("line"@, opt_u32_chars(s.line)));
        assert(span_entries(*s)[2] == ("target"@, str_json(s.target@)));
        assert(span_entries(*s)[3] == ("file"@, opt_str_chars(view_opt_string(s.file))));
    }
    let fs = s.fields.fields();
    let n = fs.len();
    let mut i: usize = 0;
    while i < n
        invariant
            n == fs@.len(),
            i <= n,
            fs@.map_values(|e: (String, crate::json::value::Value)| (e.0@, e.1.view_v()))
                == s.fields.entries(),
            span_entries(*s).len() == 4 + n,
            parts@.len() == 4 + i,
            forall|j: int|
                0 <= j < parts@.len() ==> parts@[j]@ == enc_entry(
                    span_entries(*s)[j].0,
                    span_entries(*s)[j].1,
                ),
        decreases n - i,
    {
        let val = render_value_str(&fs[i].1);
        parts.push(render_entry(fs[i].0.as_str(), val.as_str()));
        proof {
            assert(s.fields.entries()[i as int] == (fs@[i as int].0@, fs@[i as int].1.view_v()));
            assert(span_entries(*s)[4 + i as int] == (
                s.fields.entries()[i as int].0,
                value_v_chars(s.fields.entries()[i as int].1),
            ));
        }
        i += 1;
    }
    proof {
        assert(views_of(parts@) =~= enc_entries_of(span_entries(*s)));
    }
    let r = render_obj_parts(&parts);
    proof {
        assert(r@ == span_chars(*s));
    }
    r
}

/// Rendering distributes over appending one store entry.
proof fn lemma_field_entries_push(es: StoreEntries, e: (Seq<char>, ValueV))
    ensures
        field_entries_all(es.push(e)) == field_entries_all(es).push((e.0, value_v_chars(e.1))),
{
    assert(field_entries_all(es.push(e)) =~= field_entries_all(es).push(
        (e.0, value_v_chars(e.1)),
    ));
}

/// One unfolding step of [`custom_entries`] along a prefix.
proof fn lemma_custom_take_step(es: StoreEntries, i: int)
    requires
        0 <= i < es.len(),
    ensures
        custom_entries(es.take(i + 1)) == if is_custom_key(es[i].0) {
            custom_entries(es.take(i)).push(es[i])
        } else {
            custom_entries(es.take(i))
        },
{
    assert(es.take(i + 1).drop_last() =~= es.take(i));
    assert(es.take(i + 1).last() == es[i]);
}

/// Renders the `metadata` object.
fn render_metadata(event: &EventData, chain: &Vec<SpanData>, environment: &str) -> (r: String)
    ensures
        r@ == metadata_chars(*event, chain@, environment@),
{
    let ghost es = event.fields.entries();
    let ghost fixed = meta_fixed_entries(*event, environment@);
    let mut parts: Vec<String> = Vec::new();

    let v0 = render_json_str(environment);
    parts.push(render_entry("environment", v0.as_str()));

    let target_val: String = match event.fields.get::<String>("log.target") {
        Some(t) => render_json_str(t.as_str()),
        None => render_json_str(event.target.as_str()),
    };
    proof {
        assert(target_val@ == str_json(event_target_chars(*event)));
    }
    parts.push(render_entry("target", target_val.as_str()));

    let file_val: String = match &event.file {
        Some(f) => render_json_str(f.as_str()),
        None => match event.fields.get::<String>("log.file") {
            Some(t) => render_json_str(t.as_str()),
            None => render_json_str("-"),
        },
    };
    proof {
        assert(file_val@ == str_json(event_file_chars(*event)));
    }
    parts.push(render_entry("file", file_val.as_str()));

    let line: u32 = match event.line {
        Some(n) => n,
        None => match event.fields.get::<u32>("log.line") {
            Some(n) => n,
            None => 0,
        },
    };
    proof {
        assert(line as int == event_line_num(*event));
    }
    let line_val = u64_to_string(line as u64);
    parts.push(render_entry("line", line_val.as_str()));

    proof {
        assert(fixed[0] == ("environment"@, str_json(environment@)));
        assert(fixed[1] == ("target"@, str_json(event_target_chars(*event))));
        assert(fixed[2] == ("file"@, str_json(event_file_chars(*event))));
        assert(fixed[3] == ("line"@, dec_uint_chars(event_line_num(*event) as nat)));
        assert(es.take(0) =~= Seq::<(Seq<char>, ValueV)>::empty());
        assert(fixed + field_entries_all(custom_entries(es.take(0))) =~= fixed);
        assert(views_of(parts@) =~= enc_entries_of(
            fixed + field_entries_all(custom_entries(es.take(0))),
        ));
    }

    let fs = event.fields.fields();
    let n = fs.len();
    let mut i: usize = 0;
    while i < n
        invariant
            n == fs@.len(),
            i <= n,
            es == event.fields.entries(),
            fixed == meta_fixed_entries(*event, environment@),
            fs@.map_values(|e: (String, crate::json::value::Value)| (e.0@, e.1.view_v())) == es,
            views_of(parts@) =~= enc_entries_of(
                fixed + field_entries_all(custom_entries(es.take(i as int))),
            ),
        decreases n - i,
    {
        proof {
            assert(es[i as int] == (fs@[i as int].0@, fs@[i as int].1.view_v()));
            lemma_custom_take_step(es, i as int);
        }
        let keep = !crate::text::str_eq(fs[i].0.as_str(), "message") && !crate::text::str_has_prefix(
            fs[i].0.as_str(),
            "log.",
        );
        if keep {
            let val = render_value_str(&fs[i].1);
            let entry_str = render_entry(fs[i].0.as_str(), val.as_str());
            let ghost old_parts = parts@;
            let ghost ev = entry_str@;
            let ghost prev = fixed + field_entries_all(custom_entries(es.take(i as int)));
            let ghost e2 = (es[i as int].0, value_v_chars(es[i as int].1));
            parts.push(entry_str);
            proof {
                assert(is_custom_key(es[i as int].0));
                lemma_field_entries_push(custom_entries(es.take(i as int)), es[i as int]);
                assert(fixed + field_entries_all(custom_entries(es.take(i as int + 1)))
                    =~= prev.push(e2));
                crate::json::encode::lemma_enc_entries_push(prev, e2);
                assert(ev == enc_entry(e2.0, e2.1));
                crate::json::encode::lemma_views_push(old_parts, parts@, ev);
                assert(views_of(parts@) == enc_entries_of(prev).push(enc_entry(e2.0, e2.1)));
                assert(views_of(parts@) =~= enc_entries_of(
                    fixed + field_entries_all(custom_entries(es.take(i as int + 1))),
                ));
            }
        } else {
            proof {
                assert(!is_custom_key(es[i as int].0));
                assert(custom_entries(es.take(i as int + 1)) == custom_entries(es.take(i as int)));
            }
        }
        i += 1;
    }
    proof {
        assert(es.take(n as int) =~= es);
    }

    let ghost with_fields = fixed + field_entries_all(custom_entries(es));

    if chain.len() > 0 {
        let sp = render_span(&chain[chain.len() - 1]);
        let entry_str = render_entry("current_span", sp.as_str());
        let ghost old_parts = parts@;
        let ghost ev = entry_str@;
        parts.push(entry_str);
        proof {
            assert(chain@.last() == chain@[chain@.len() - 1]);
            let cs = ("current_span"@, span_chars(chain@.last()));
            assert(ev == enc_entry(cs.0, cs.1));
            crate::json::encode::lemma_views_push(old_parts, parts@, ev);
            crate::json::encode::lemma_enc_entries_push(with_fields, cs);
            assert(with_fields + current_span_entries(chain@) =~= with_fields.push(cs));
            assert(views_of(parts@) =~= enc_entries_of(with_fields + current_span_entries(chain@)));
        }
    } else {
        proof {
            assert(with_fields + current_span_entries(chain@) =~= with_fields);
            assert(views_of(parts@) =~= enc_entries_of(with_fields + current_span_entries(chain@)));
        }
    }

    let mut span_parts: Vec<String> = Vec::new();
    let m = chain.len();
    let mut j: usize = 0;
    while j < m
        invariant
            m == chain@.len(),
            j <= m,
            span_parts@.len() == j,
            forall|k: int| 0 <= k < j ==> span_parts@[k]@ == span_chars(chain@[k]),
        decreases m - j,
    {
        span_parts.push(render_span(&chain[j]));
        j += 1;
    }
    let arr = render_arr_parts(&span_parts);
    proof {
        assert(views_of(span_parts@) =~= chain@.map_values(|s: SpanData| span_chars(s)));
        assert(arr@ == enc_arr(chain@.map_values(|s: SpanData| span_chars(s))));
    }
    let entry_str = render_entry("spans", arr.as_str());
    let ghost old_parts = parts@;
    let ghost ev = entry_str@;
    let ghost base = with_fields + current_span_entries(chain@);
    parts.push(entry_str);
    proof {
        let se = ("spans"@, enc_arr(chain@.map_values(|s: SpanData| span_chars(s))));
        assert(ev == enc_entry(se.0, se.1));
        crate::json::encode::lemma_views_push(old_parts, parts@, ev);
        crate::json::encode::lemma_enc_entries_push(base, se);
        assert(metadata_entries(*event, chain@, environment@) =~= base.push(se));
        assert(views_of(parts@) =~= enc_entries_of(metadata_entries(*event, chain@, environment@)));
    }
    let r = render_obj_parts(&parts);
    proof {
        assert(r@ == metadata_chars(*event, chain@, environment@));
    }
    r
}

/// Relies on chrono's `Utc::now` and `DateTime::to_rfc3339_opts`: the current
/// UTC time, rendered as an RFC 3339 timestamp with microsecond precision.
#[verifier::external_body]
fn now_rfc3339() -> String {
    chrono::Utc::now().to_rfc3339_opts(chrono::SecondsFormat::Micros, true)
}

impl DefaultEventFormatter {
    /// Renders the complete output document for one event, using the given
    /// timestamp text.
    pub fn format_event_with_timestamp(
        &self,
        timestamp: &str,
        event: &EventData,
        chain: &Vec<SpanData>,
        info: &ContextInfo,
        dd: Option<DdContext>,
    ) -> (r: String)
        ensures
            r@ == document_chars(timestamp@, *info, *event, chain@, dd),
    {
        let ghost head = seq![
            ("timestamp"@, str_json(timestamp@)),
            ("level"@, str_json(event.level.spec_str())),
            ("country"@, opt_str_chars(info.spec_country())),
            ("environment"@, str_json(info.spec_environment())),
            ("type"@, str_json(info.spec_app_name())),
        ];
        let mut parts: Vec<String> = Vec::new();

        let v0 = render_json_str(timestamp);
        parts.push(render_entry("timestamp", v0.as_str()));
        let v1 = render_json_str(event.level.as_str());
        parts.push(render_entry("level", v1.as_str()));
        let v2 = render_opt_str(info.country());
        parts.push(render_entry("country", v2.as_str()));
        let v3 = render_json_str(info.environment().as_str());
        parts.push(render_entry("environment", v3.as_str()));
        let v4 = render_json_str(info.app_name().as_str());
        parts.push(render_entry("type", v4.as_str()));
        proof {
            assert(head[0] == ("timestamp"@, str_json(timestamp@)));
            assert(head[1] == ("level"@, str_json(event.level.spec_str())));
            assert(head[2] == ("country"@, opt_str_chars(info.spec_country())));
            assert(head[3] == ("environment"@, str_json(info.spec_environment())));
            assert(head[4] == ("type"@, str_json(info.spec_app_name())));
            assert(views_of(parts@) =~= enc_entries_of(head));
        }

        let ghost es = event.fields.entries();
        match event.fields.get_value("message") {
            Some(v) => {
                let val = render_value_str(v);
                let entry_str = render_entry("message", val.as_str());
                let ghost old_parts = parts@;
                let ghost ev = entry_str@;
                parts.push(entry_str);
                proof {
                    let me = ("message"@, value_v_chars(v.view_v()));
                    assert(message_entries(es) =~= seq![me]);
                    assert(ev == enc_entry(me.0, me.1));
                    crate::json::encode::lemma_views_push(old_parts, parts@, ev);
                    crate::json::encode::lemma_enc_entries_push(head, me);
                    assert(head + message_entries(es) =~= head.push(me));
                    assert(views_of(parts@) =~= enc_entries_of(head + message_entries(es)));
                }
            },
            None => {
                proof {
                    assert(head + message_entries(es) =~= head);
                    assert(views_of(parts@) =~= enc_entries_of(head + message_entries(es)));
                }
            },
        }

        let ghost with_message = head + message_entries(es);
        let meta = render_metadata(event, chain, info.environment().as_str());
        let meta_entry = render_entry("metadata", meta.as_str());
        let ghost old_parts = parts@;
        let ghost mev = meta_entry@;
        parts.push(meta_entry);
        proof {
            let me = ("metadata"@, metadata_chars(*event, chain@, info.spec_environment()));
            assert(mev == enc_entry(me.0, me.1));
            crate::json::encode::lemma_views_push(old_parts, parts@, mev);
            crate::json::encode::lemma_enc_entries_push(with_message, me);
            assert(with_message + seq![me] =~= with_message.push(me));
            assert(views_of(parts@) =~= enc_entries_of(with_message + seq![me]));
        }
        let ghost with_meta = with_message + seq![
            ("metadata"@, metadata_chars(*event, chain@, info.spec_environment())),
        ];

        match dd {
            Some(d) => {
                let mut dd_parts: Vec<String> = Vec::new();
                let t0 = u64_to_string(d.trace_id);
                dd_parts.push(render_entry("trace_id", t0.as_str()));
                let t1 = u64_to_string(d.span_id);
                dd_parts.push(render_entry("span_id", t1.as_str()));
                proof {
                    assert(dd_obj_entries(d)[0] == ("trace_id"@, dec_uint_chars(d.trace_id as nat)));
                    assert(dd_obj_entries(d)[1] == ("span_id"@, dec_uint_chars(d.span_id as nat)));
                    assert(views_of(dd_parts@) =~= enc_entries_of(dd_obj_entries(d)));
                }
                let dd_obj = render_obj_parts(&dd_parts);
                let dd_entry = render_entry("dd", dd_obj.as_str());
                let ghost old_parts2 = parts@;
                let ghost dev = dd_entry@;
                parts.push(dd_entry);
                proof {
                    let de = ("dd"@, enc_obj(dd_obj_entries(d)));
                    assert(dev == enc_entry(de.0, de.1));
                    crate::json::encode::lemma_views_push(old_parts2, parts@, dev);
                    crate::json::encode::lemma_enc_entries_push(with_meta, de);
                    assert(document_entries(timestamp@, *info, *event, chain@, dd) =~= with_meta.push(
                        de,
                    ));
                    assert(views_of(parts@) =~= enc_entries_of(
                        document_entries(timestamp@, *info, *event, chain@, dd),
                    ));
                }
            },
            None => {
                proof {
                    assert(document_entries(timestamp@, *info, *event, chain@, dd) =~= with_meta);
                    assert(views_of(parts@) =~= enc_entries_of(
                        document_entries(timestamp@, *info, *event, chain@, dd),
                    ));
                }
            },
        }

        let r = render_obj_parts(&parts);
        proof {
            assert(r@ == document_chars(timestamp@, *info, *event, chain@, dd));
        }
        r
    }

    /// Renders the complete output document for one event, stamped with the
    /// current time.
    pub fn format_event(
        &self,
        event: &EventData,
        chain: &Vec<SpanData>,
        info: &ContextInfo,
        dd: Option<DdContext>,
    ) -> (r: String)
        ensures
            exists|ts: Seq<char>| r@ == document_chars(ts, *info, *event, chain@, dd),
    {
        let ts = now_rfc3339();
        let r = self.format_event_with_timestamp(ts.as_str(), event, chain, info, dd);
        proof {
            assert(exists|t: Seq<char>| r@ == document_chars(t, *info, *event, chain@, dd)) by {
                assert(r@ == document_chars(ts@, *info, *event, chain@, dd));
            }
        }
        r
    }
}

} // verus!
