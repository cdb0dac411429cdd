//! The request envelope: query, response, and the per-request side-effect
//! signals raised by builtin script functions.

use vstd::prelude::*;

verus! {

/// Per-request side-effect signals raised by builtin script functions
/// during execution and inspected exactly once afterwards.
pub struct TransExt {
    /// Signals there is new email to be sent.
    pub tx_email: bool,
    /// Requested sleep-scheduler interval in seconds; 0 means "not requested".
    pub sleep: u64,
    /// Signals that the request wants to wait for the next commit.
    pub trans_wait: bool,
}

/// The sleep interval a script request `to` clamps to: at least one second.
pub open spec fn spec_clamp_sleep(to: i64) -> u64 {
    if to <= 0 {
        1u64
    } else {
        to as u64
    }
}

impl TransExt {
    /// Fresh signal record: nothing requested yet.
    pub fn new() -> (r: Box<Self>)
        ensures
            !r.tx_email,
            r.sleep == 0,
            !r.trans_wait,
    {
        Box::new(TransExt { tx_email: false, sleep: 0, trans_wait: false })
    }

    /// Builtin `SLEEP(to)`: requests a new scheduler interval, clamped to at
    /// least one second.  A later call overrides an earlier one.
    pub fn set_sleep(&mut self, to: i64)
        ensures
            final(self).sleep == spec_clamp_sleep(to),
            final(self).tx_email == old(self).tx_email,
            final(self).trans_wait == old(self).trans_wait,
    {
        self.sleep = if to <= 0 {
            1
        } else {
            to as u64
        };
    }

    /// Builtin `EMAILTX()`: asks for an email dispatch cycle after commit.
    pub fn set_email(&mut self)
        ensures
            final(self).tx_email,
            final(self).sleep == old(self).sleep,
            final(self).trans_wait == old(self).trans_wait,
    {
        self.tx_email = true;
    }

    /// Builtin `TRANSWAIT()`: asks the read path to wait for the next commit.
    pub fn set_trans_wait(&mut self)
        ensures
            final(self).trans_wait,
            final(self).sleep == old(self).sleep,
            final(self).tx_email == old(self).tx_email,
    {
        self.trans_wait = true;
    }
}

/// One multipart field, as the HTTP layer hands it over: the payload is
/// either decoded text or raw bytes, never both.
pub struct Part {
    pub name: String,
    pub file_name: String,
    pub content_type: String,
    pub text: String,
    pub data: Vec<u8>,
}

/// Mathematical image of a [`Part`].
pub ghost struct PartView {
    pub name: Seq<char>,
    pub file_name: Seq<char>,
    pub content_type: Seq<char>,
    pub text: Seq<char>,
    pub data: Seq<u8>,
}

impl View for Part {
    type V = PartView;

    open spec fn view(&self) -> PartView {
        PartView {
            name: self.name@,
            file_name: self.file_name@,
            content_type: self.content_type@,
            text: self.text@,
            data: self.data@,
        }
    }
}

impl PartView {
    /// At most one of the two payload forms is populated.
    pub open spec fn wf(self) -> bool {
        self.text.len() == 0 || self.data.len() == 0
    }
}

/// Whether a field with this content type carries a text payload
/// (fields without a content type do) rather than raw bytes.
pub fn part_is_text(content_type: &String) -> (r: bool)
    ensures
        r == (content_type@.len() == 0),
{
    content_type.as_str().is_empty()
}

impl Part {
    /// A field whose payload was decoded as text (no content type given).
    pub fn text_part(name: String, file_name: String, text: String) -> (r: Part)
        ensures
            r@ == (PartView {
                name: name@,
                file_name: file_name@,
                content_type: Seq::empty(),
                text: text@,
                data: Seq::empty(),
            }),
            r@.wf(),
    {
        let r = Part { name, file_name, content_type: String::new(), text, data: Vec::new() };
        proof {
            assert(r@.content_type =~= Seq::<char>::empty());
            assert(r@.data =~= Seq::<u8>::empty());
        }
        r
    }

    /// A field whose payload stays raw bytes (a content type was given).
    pub fn binary_part(name: String, file_name: String, content_type: String, data: Vec<u8>) -> (r:
        Part)
        ensures
            r@ == (PartView {
                name: name@,
                file_name: file_name@,
                content_type: content_type@,
                text: Seq::empty(),
                data: data@,
            }),
            r@.wf(),
    {
        let r = Part { name, file_name, content_type, text: String::new(), data };
        proof {
            assert(r@.text =~= Seq::<char>::empty());
        }
        r
    }
}

/// Method-agnostic request envelope, immutable once the HTTP layer has
/// finished building it.  `form` and `parts` are mutually exclusive.
pub struct Query {
    /// Route path.
    pub path: String,
    /// Query parameters, keys unique.
    pub params: Vec<(String, String)>,
    /// URL-encoded form fields, keys unique; empty when `parts` is used.
    pub form: Vec<(String, String)>,
    /// Cookies, keys unique.
    pub cookies: Vec<(String, String)>,
    /// Uploaded multipart fields; empty when `form` is used.
    pub parts: Vec<Part>,
    /// Script text to execute.
    pub sql: String,
    /// Microseconds since the Unix epoch at envelope construction.
    pub now: i64,
}

/// Mathematical image of a [`Query`].
pub ghost struct QueryView {
    pub path: Seq<char>,
    pub params: Seq<(Seq<char>, Seq<char>)>,
    pub form: Seq<(Seq<char>, Seq<char>)>,
    pub cookies: Seq<(Seq<char>, Seq<char>)>,
    pub parts: Seq<PartView>,
    pub sql: Seq<char>,
    pub now: i64,
}

/// The views of a list of key/value pairs.
pub open spec fn pairs_view(s: Seq<(String, String)>) -> Seq<(Seq<char>, Seq<char>)> {
    s.map_values(|p: (String, String)| (p.0@, p.1@))
}

/// The views of a list of parts.
pub open spec fn parts_view(s: Seq<Part>) -> Seq<PartView> {
    s.map_values(|p: Part| p@)
}

impl View for Query {
    type V = QueryView;

    open spec fn view(&self) -> QueryView {
        QueryView {
            path: self.path@,
            params: pairs_view(self.params@),
            form: pairs_view(self.form@),
            cookies: pairs_view(self.cookies@),
            parts: parts_view(self.parts@),
            sql: self.sql@,
            now: self.now,
        }
    }
}

/// Keys of a key/value list are pairwise distinct.
pub open spec fn unique_keys(s: Seq<(Seq<char>, Seq<char>)>) -> bool {
    forall|i: int, j: int| 0 <= i < j < s.len() ==> s[i].0 != s[j].0
}

impl QueryView {
    /// Well-formedness: unique keys in every mapping, the two body forms
    /// mutually exclusive, every part well-formed.
    pub open spec fn wf(self) -> bool {
        &&& unique_keys(self.params)
        &&& unique_keys(self.form)
        &&& unique_keys(self.cookies)
        &&& (self.form.len() == 0 || self.parts.len() == 0)
        &&& forall|i: int| 0 <= i < self.parts.len() ==> #[trigger] self.parts[i].wf()
    }
}

/// The default script a fresh envelope executes.
pub open spec fn spec_default_sql() -> Seq<char> {
    "EXEC web.Main()"@
}

/// The view of a freshly built envelope for clock reading `now`.
pub open spec fn spec_fresh_query(now: i64) -> QueryView {
    QueryView {
        path: Seq::empty(),
        params: Seq::empty(),
        form: Seq::empty(),
        cookies: Seq::empty(),
        parts: Seq::empty(),
        sql: spec_default_sql(),
        now: now,
    }
}

impl Query {
    /// Fresh envelope for the given clock reading: default script, no
    /// parameters, no body.
    pub fn new(now: i64) -> (r: Query)
        ensures
            r@ == spec_fresh_query(now),
            r@.wf(),
    {
        let sql_text: &str = "EXEC web.Main()";
        let r = Query {
            path: String::new(),
            params: Vec::new(),
            form: Vec::new(),
            cookies: Vec::new(),
            parts: Vec::new(),
            sql: sql_text.to_owned(),
            now,
        };
        proof {
            assert(r@.path =~= Seq::<char>::empty());
            assert(r@.params =~= Seq::<(Seq<char>, Seq<char>)>::empty());
            assert(r@.form =~= Seq::<(Seq<char>, Seq<char>)>::empty());
            assert(r@.cookies =~= Seq::<(Seq<char>, Seq<char>)>::empty());
            assert(r@.parts =~= Seq::<PartView>::empty());
        }
        r
    }
}

/// Engine-produced response: status code, ordered headers (duplicates
/// allowed), output payload.
pub struct Response {
    pub status_code: u16,
    pub headers: Vec<(String, String)>,
    pub output: Vec<u8>,
}

impl Response {
    /// Fresh response: OK status, nothing written yet.
    pub fn new() -> (r: Response)
        ensures
            r.status_code == 200,
            r.headers@.len() == 0,
            r.output@.len() == 0,
    {
        Response { status_code: 200, headers: Vec::new(), output: Vec::new() }
    }
}

/// One request's whole lifetime: query, response, side-effect signals, and
/// whether a state-changing execution is to be appended to the replication
/// log.
pub struct ServerTrans {
    pub qy: Query,
    pub rp: Response,
    pub ext: TransExt,
    pub log: bool,
}

impl ServerTrans {
    /// Fresh transaction: default envelope, logging enabled, no signals.
    pub fn new(now: i64) -> (r: ServerTrans)
        ensures
            r.log,
            !r.ext.tx_email,
            r.ext.sleep == 0,
            !r.ext.trans_wait,
            r.qy@ == spec_fresh_query(now),
            r.qy@.wf(),
            r.rp.status_code == 200,
            r.rp.headers@.len() == 0,
            r.rp.output@.len() == 0,
    {
        ServerTrans {
            qy: Query::new(now),
            rp: Response::new(),
            ext: TransExt { tx_email: false, sleep: 0, trans_wait: false },
            log: true,
        }
    }

    /// Install the request line: route path, query parameters, cookies.
    pub fn set_request(&mut self, path: String, params: Vec<(String, String)>, cookies: Vec<
        (String, String),
    >)
        requires
            unique_keys(pairs_view(params@)),
            unique_keys(pairs_view(cookies@)),
        ensures
            final(self).qy@ == (QueryView {
                path: path@,
                params: pairs_view(params@),
                cookies: pairs_view(cookies@),
                ..old(self).qy@
            }),
            final(self).rp == old(self).rp,
            final(self).ext == old(self).ext,
            final(self).log == old(self).log,
    {
        self.qy.path = path;
        self.qy.params = params;
        self.qy.cookies = cookies;
    }

    /// Install the POST body: the form fields when the request carried a
    /// form, else the multipart parts.  The two stay mutually exclusive.
    pub fn set_body(&mut self, form: Option<Vec<(String, String)>>, parts: Vec<Part>)
        requires
            form matches Some(f) ==> unique_keys(pairs_view(f@)),
            forall|i: int| 0 <= i < parts@.len() ==> #[trigger] parts@[i]@.wf(),
            old(self).qy@.form.len() == 0,
            old(self).qy@.parts.len() == 0,
        ensures
            form matches Some(f) ==> final(self).qy@ == (QueryView {
                form: pairs_view(f@),
                ..old(self).qy@
            }),
            form is None ==> final(self).qy@ == (QueryView {
                parts: parts_view(parts@),
                ..old(self).qy@
            }),
            final(self).qy@.form.len() == 0 || final(self).qy@.parts.len() == 0,
            old(self).qy@.wf() ==> final(self).qy@.wf(),
            final(self).rp == old(self).rp,
            final(self).ext == old(self).ext,
            final(self).log == old(self).log,
    {
        match form {
            Some(f) => {
                self.qy.form = f;
            },
            None => {
                self.qy.parts = parts;
            },
        }
    }
}

/// What the shared state forwards to the background pipelines after a write
/// reply comes back.
pub struct Signals {
    /// New scheduler interval in microseconds, if the script asked to sleep.
    pub sleep_micros: Option<u64>,
    /// Whether to wake the email dispatcher.
    pub email: bool,
}

/// Seconds to microseconds, saturating at the largest representable value.
pub open spec fn spec_micros_of_secs(s: u64) -> u64 {
    if s <= u64::MAX / 1_000_000 {
        (s * 1_000_000) as u64
    } else {
        u64::MAX
    }
}

/// Seconds to microseconds, saturating.
pub fn micros_of_secs(s: u64) -> (r: u64)
    ensures
        r == spec_micros_of_secs(s),
{
    if s <= u64::MAX / 1_000_000 {
        s * 1_000_000
    } else {
        u64::MAX
    }
}

/// How long a read request that asked to wait for a commit will wait at
/// most, in seconds.
pub const COMMIT_WAIT_TIMEOUT_SECS: u64 = 600;

/// Inspect a returned envelope's side-effect signals, as the shared state
/// does once per write reply.  Only the master reacts to them.
pub fn signals_of(is_master: bool, ext: &TransExt) -> (r: Signals)
    ensures
        r.sleep_micros == if is_master && ext.sleep > 0 {
            Some(spec_micros_of_secs(ext.sleep))
        } else {
            None::<u64>
        },
        r.email == (is_master && ext.tx_email),
{
    Signals {
        sleep_micros: if is_master && ext.sleep > 0 {
            Some(micros_of_secs(ext.sleep))
        } else {
            None
        },
        email: is_master && ext.tx_email,
    }
}

} // verus!
