use vstd::prelude::*;
use vstd::string::StringExecFns;

use crate::error::ClientError;
use crate::text::{dec, decimal, form_encode, push_form_encoded};
use crate::time::{rfc3339, rfc3339_of, Timestamp};

verus! {

/// The HTTP method of a request.
#[derive(Debug, Clone, Copy, PartialEq, Eq, Structural)]
pub enum Method {
    Get,
    Post,
    Delete,
}

/// Start and end of the time a bucket's events cover.
#[derive(Debug, Clone, Copy, PartialEq, Eq, Structural)]
pub struct BucketMetadata {
    pub start: Option<Timestamp>,
    pub end: Option<Timestamp>,
}

/// A named, typed container of events, as the client sends it.
/// Free-form JSON is held as its text: `data` is a JSON object and each
/// entry of `events` a JSON event.
#[derive(Debug, Clone)]
pub struct Bucket {
    pub bid: Option<i64>,
    pub id: String,
    pub _type: String,
    pub client: String,
    pub hostname: String,
    pub created: Option<Timestamp>,
    pub data: String,
    pub metadata: BucketMetadata,
    pub events: Option<Vec<String>>,
    pub last_updated: Option<Timestamp>,
}

/// What a request carries.
#[derive(Debug, Clone)]
pub enum Body {
    Empty,
    /// JSON bytes, sent as they are.
    Json(Vec<u8>),
    /// A bucket, sent as its JSON form.
    Bucket(Bucket),
}

/// One HTTP request to the server.
#[derive(Debug, Clone)]
pub struct Request {
    pub method: Method,
    pub url: String,
    pub body: Body,
}

/// Connection configuration and identity of a client.
#[derive(Debug, Clone)]
pub struct AwClient {
    /// `http://{host}:{port}`, without a trailing slash.
    pub baseurl: String,
    /// The client name given to buckets that this client creates.
    pub name: String,
    /// The name of the local host given to buckets that this client creates.
    pub hostname: String,
}

/// Whether the `url` crate accepts a text as an absolute URL.
pub uninterp spec fn url_parses(s: Seq<char>) -> bool;

/// Relies on `reqwest::Url::parse` (the `url` crate): whether it returns `Ok`
/// depends on the text alone.
#[verifier::external_body]
fn url_accepts(s: &str) -> (r: bool)
    ensures
        r == url_parses(s@),
{
    reqwest::Url::parse(s).is_ok()
}

/// Relies on `gethostname::gethostname`, read lossily as UTF-8. Nothing is
/// promised of the name: it depends on the machine.
#[verifier::external_body]
fn local_hostname() -> (r: String) {
    gethostname::gethostname().to_string_lossy().to_string()
}

/// Signed base-10 text of an integer.
pub open spec fn int_text(n: int) -> Seq<char> {
    if n < 0 {
        seq!['-'] + dec((-n) as nat)
    } else {
        dec(n as nat)
    }
}

/// `http://{host}:{port}`.
pub open spec fn base_url_of(host: Seq<char>, port: nat) -> Seq<char> {
    "http://"@ + host + ":"@ + dec(port)
}

pub open spec fn buckets_url(base: Seq<char>) -> Seq<char> {
    base + "/api/0/buckets/"@
}

pub open spec fn bucket_url(base: Seq<char>, id: Seq<char>) -> Seq<char> {
    buckets_url(base) + id
}

pub open spec fn events_url(base: Seq<char>, id: Seq<char>) -> Seq<char> {
    bucket_url(base, id) + "/events"@
}

pub open spec fn event_url(base: Seq<char>, id: Seq<char>, event_id: int) -> Seq<char> {
    events_url(base, id) + "/"@ + int_text(event_id)
}

pub open spec fn count_url(base: Seq<char>, id: Seq<char>) -> Seq<char> {
    events_url(base, id) + "/count"@
}

pub open spec fn heartbeat_url(base: Seq<char>, id: Seq<char>, pulsetime: Seq<char>) -> Seq<char> {
    bucket_url(base, id) + "/heartbeat?pulsetime="@ + pulsetime
}

pub open spec fn info_url(base: Seq<char>) -> Seq<char> {
    base + "/api/0/info"@
}

/// `name=value`, both form-encoded.
pub open spec fn pair_text(p: (Seq<char>, Seq<char>)) -> Seq<char> {
    form_encode(p.0) + "="@ + form_encode(p.1)
}

/// The pairs joined by `&`.
pub open spec fn join_pairs(ps: Seq<(Seq<char>, Seq<char>)>) -> Seq<char>
    decreases ps.len(),
{
    if ps.len() == 0 {
        Seq::empty()
    } else if ps.len() == 1 {
        pair_text(ps[0])
    } else {
        join_pairs(ps.drop_last()) + "&"@ + pair_text(ps.last())
    }
}

/// The query part of a URL: empty without pairs, else `?` and the joined pairs.
#[verifier::opaque]
pub open spec fn query_text(ps: Seq<(Seq<char>, Seq<char>)>) -> Seq<char> {
    if ps.len() == 0 {
        Seq::empty()
    } else {
        "?"@ + join_pairs(ps)
    }
}

/// The query parameters of an event listing, in the order `start`, `end`, `limit`,
/// each one present only when given.
pub open spec fn event_query(
    start: Option<Timestamp>,
    end: Option<Timestamp>,
    limit: Option<u64>,
) -> Seq<(Seq<char>, Seq<char>)> {
    let a = match start {
        Some(t) => seq![("start"@, rfc3339_of(t.secs as int, t.nanos as int))],
        None => Seq::empty(),
    };
    let b = match end {
        Some(t) => seq![("end"@, rfc3339_of(t.secs as int, t.nanos as int))],
        None => Seq::empty(),
    };
    let c = match limit {
        Some(l) => seq![("limit"@, dec(l as nat))],
        None => Seq::empty(),
    };
    a + b + c
}

/// A JSON array of the given JSON texts: `[`, the items joined by `,`, `]`.
pub open spec fn json_array(items: Seq<Seq<u8>>) -> Seq<u8> {
    seq![91u8] + join_items(items) + seq![93u8]
}

pub open spec fn join_items(items: Seq<Seq<u8>>) -> Seq<u8>
    decreases items.len(),
{
    if items.len() == 0 {
        Seq::empty()
    } else if items.len() == 1 {
        items[0]
    } else {
        join_items(items.drop_last()) + seq![44u8] + items.last()
    }
}

fn push_bytes(r: &mut Vec<u8>, b: &Vec<u8>)
    ensures
        final(r)@ == old(r)@ + b@,
{
    let mut i: usize = 0;
    while i < b.len()
        invariant
            i <= b@.len(),
            r@ == old(r)@ + b@.subrange(0, i as int),
        decreases b@.len() - i,
    {
        r.push(b[i]);
        proof {
            assert(r@ =~= old(r)@ + b@.subrange(0, i + 1));
        }
        i = i + 1;
    }
    assert(b@.subrange(0, b@.len() as int) =~= b@);
}

/// Frames JSON texts as one JSON array.
pub fn frame_array(items: &Vec<Vec<u8>>) -> (r: Vec<u8>)
    ensures
        r@ == json_array(items.deep_view()),
{
    let mut r: Vec<u8> = Vec::new();
    r.push(91u8);
    let mut i: usize = 0;
    while i < items.len()
        invariant
            i <= items@.len(),
            r@ == seq![91u8] + join_items(items.deep_view().subrange(0, i as int)),
        decreases items@.len() - i,
    {
        proof {
            let next = items.deep_view().subrange(0, i + 1);
            assert(next.drop_last() =~= items.deep_view().subrange(0, i as int));
            assert(next.last() == items[i as int]@);
        }
        if i > 0 {
            r.push(44u8);
        }
        push_bytes(&mut r, &items[i]);
        proof {
            let next = items.deep_view().subrange(0, i + 1);
            assert(r@ =~= seq![91u8] + join_items(next));
        }
        i = i + 1;
    }
    r.push(93u8);
    assert(items.deep_view().subrange(0, items@.len() as int) =~= items.deep_view());
    assert(r@ =~= json_array(items.deep_view()));
    r
}

fn push_pair(url: &mut String, first: bool, name: &str, value: &str)
    ensures
        final(url)@ == old(url)@ + (if first {
            "?"@
        } else {
            "&"@
        }) + pair_text((name@, value@)),
{
    if first {
        url.append("?");
    } else {
        url.append("&");
    }
    push_form_encoded(url, name);
    url.append("=");
    push_form_encoded(url, value);
    assert(final(url)@ =~= old(url)@ + (if first {
        "?"@
    } else {
        "&"@
    }) + pair_text((name@, value@)));
}

proof fn lemma_query_empty()
    ensures
        query_text(Seq::empty()) == Seq::<char>::empty(),
{
    reveal(query_text);
}

proof fn lemma_query_push(ps: Seq<(Seq<char>, Seq<char>)>, p: (Seq<char>, Seq<char>))
    ensures
        query_text(ps.push(p)) == query_text(ps) + (if ps.len() == 0 {
            "?"@
        } else {
            "&"@
        }) + pair_text(p),
{
    reveal(query_text);
    assert(ps.push(p).drop_last() =~= ps);
    if ps.len() == 0 {
        assert(query_text(ps.push(p)) =~= "?"@ + pair_text(p));
        assert(query_text(ps) =~= Seq::<char>::empty());
        assert(query_text(ps.push(p)) =~= query_text(ps) + "?"@ + pair_text(p));
    } else {
        assert(query_text(ps.push(p)) =~= query_text(ps) + "&"@ + pair_text(p));
    }
}

/// Inserting one event sends the same body as inserting the list that holds
/// only that event: a JSON array of one item is that item in brackets.
pub proof fn lemma_single_event_array(event: Seq<u8>)
    ensures
        json_array(seq![event]) == seq![91u8] + event + seq![93u8],
{
    assert(json_array(seq![event]) =~= seq![91u8] + event + seq![93u8]);
}

/// A listing's query holds a parameter exactly when it was given, each at most
/// once, in the order `start`, `end`, `limit`, with its encoded value.
pub proof fn lemma_event_query_present(
    start: Option<Timestamp>,
    end: Option<Timestamp>,
    limit: Option<u64>,
)
    ensures
        ({
            let ps = event_query(start, end, limit);
            &&& ps.len() == (if start is Some { 1int } else { 0 }) + (if end is Some { 1int } else { 0 })
                + (if limit is Some { 1int } else { 0 })
            &&& (exists|i: int| 0 <= i < ps.len() && ps[i].0 == "start"@) <==> start is Some
            &&& (exists|i: int| 0 <= i < ps.len() && ps[i].0 == "end"@) <==> end is Some
            &&& (exists|i: int| 0 <= i < ps.len() && ps[i].0 == "limit"@) <==> limit is Some
            &&& start matches Some(t) ==> ps[0] == ("start"@, rfc3339_of(t.secs as int, t.nanos as int))
            &&& limit matches Some(l) ==> ps.last() == ("limit"@, dec(l as nat))
            &&& end matches Some(t) ==> ps[if start is Some { 1int } else { 0 }] == ("end"@,
                rfc3339_of(t.secs as int, t.nanos as int))
        }),
{
    reveal_strlit("start");
    reveal_strlit("end");
    reveal_strlit("limit");
    assert("start"@ != "end"@ && "start"@ != "limit"@ && "end"@ != "limit"@) by {
        assert("start"@[0] != "limit"@[0]);
    };
    let ps = event_query(start, end, limit);
    if start is Some {
        assert(ps[0].0 == "start"@);
    }
    if end is Some {
        assert(ps[if start is Some { 1int } else { 0 }].0 == "end"@);
    }
    if limit is Some {
        assert(ps[ps.len() - 1].0 == "limit"@);
    }
}

/// Every endpoint of a bucket lies under that bucket's URL,
/// `{base}/api/0/buckets/{id}`, and begins with it letter for letter.
pub proof fn lemma_bucket_subpaths(base: Seq<char>, id: Seq<char>, event_id: int, pulsetime: Seq<char>)
    ensures
        bucket_url(base, id) == base + "/api/0/buckets/"@ + id,
        bucket_url(base, id).is_prefix_of(events_url(base, id)),
        bucket_url(base, id).is_prefix_of(count_url(base, id)),
        bucket_url(base, id).is_prefix_of(event_url(base, id, event_id)),
        bucket_url(base, id).is_prefix_of(heartbeat_url(base, id, pulsetime)),
{
    let b = bucket_url(base, id);
    assert(events_url(base, id).subrange(0, b.len() as int) =~= b);
    assert(count_url(base, id).subrange(0, b.len() as int) =~= b);
    assert(event_url(base, id, event_id).subrange(0, b.len() as int) =~= b);
    assert(heartbeat_url(base, id, pulsetime).subrange(0, b.len() as int) =~= b);
}

fn copy_str(s: &str) -> (r: String)
    ensures
        r@ == s@,
{
    String::from_str(s)
}

fn concat2(a: &str, b: &str) -> (r: String)
    ensures
        r@ == a@ + b@,
{
    let mut r = String::from_str(a);
    r.append(b);
    r
}

fn signed_decimal(n: i64) -> (r: String)
    ensures
        r@ == int_text(n as int),
{
    if n < 0 {
        let magnitude: u64 = if n == i64::MIN {
            9223372036854775808u64
        } else {
            (-n) as u64
        };
        let d = decimal(magnitude);
        let r = concat2("-", d.as_str());
        proof {
            reveal_strlit("-");
        }
        assert(r@ =~= int_text(n as int));
        r
    } else {
        decimal(n as u64)
    }
}

impl AwClient {
    /// A client of the server at `http://{host}:{port}`; `Err(Url)` when that
    /// text is no valid URL.
    pub fn new(host: &str, port: u16, name: &str) -> (r: Result<AwClient, ClientError>)
        ensures
            r is Ok <==> url_parses(base_url_of(host@, port as nat)),
            r matches Ok(c) ==> c.baseurl@ == base_url_of(host@, port as nat) && c.name@ == name@,
            r matches Err(e) ==> e == ClientError::Url,
    {
        let mut base = concat2("http://", host);
        base.append(":");
        let p = decimal(port as u64);
        base.append(p.as_str());
        assert(base@ =~= base_url_of(host@, port as nat));
        if !url_accepts(base.as_str()) {
            return Err(ClientError::Url);
        }
        Ok(AwClient { baseurl: base, name: copy_str(name), hostname: local_hostname() })
    }

    fn url_with(&self, tail: &str) -> (r: String)
        ensures
            r@ == self.baseurl@ + tail@,
    {
        concat2(self.baseurl.as_str(), tail)
    }

    fn bucket_path(&self, bucketname: &str) -> (r: String)
        ensures
            r@ == bucket_url(self.baseurl@, bucketname@),
    {
        let mut r = self.url_with("/api/0/buckets/");
        r.append(bucketname);
        r
    }

    fn events_path(&self, bucketname: &str) -> (r: String)
        ensures
            r@ == events_url(self.baseurl@, bucketname@),
    {
        let mut r = self.bucket_path(bucketname);
        r.append("/events");
        r
    }

    /// `GET /api/0/buckets/{id}`.
    pub fn get_bucket(&self, bucketname: &str) -> (r: Request)
        ensures
            r.method == Method::Get,
            r.url@ == bucket_url(self.baseurl@, bucketname@),
            r.body is Empty,
    {
        Request { method: Method::Get, url: self.bucket_path(bucketname), body: Body::Empty }
    }

    /// `GET /api/0/buckets/`.
    pub fn get_buckets(&self) -> (r: Request)
        ensures
            r.method == Method::Get,
            r.url@ == buckets_url(self.baseurl@),
            r.body is Empty,
    {
        Request { method: Method::Get, url: self.url_with("/api/0/buckets/"), body: Body::Empty }
    }

    /// `POST /api/0/buckets/{id}` with the bucket as body.
    pub fn create_bucket(&self, bucket: Bucket) -> (r: Request)
        ensures
            r.method == Method::Post,
            r.url@ == bucket_url(self.baseurl@, bucket.id@),
            r.body == Body::Bucket(bucket),
    {
        let url = self.bucket_path(bucket.id.as_str());
        Request { method: Method::Post, url, body: Body::Bucket(bucket) }
    }

    /// The bucket that `create_bucket_simple` sends: this client's name and host,
    /// empty data and metadata, no events and no timestamps.
    pub fn simple_bucket(&self, bucketname: &str, buckettype: &str) -> (b: Bucket)
        ensures
            b.bid is None,
            b.id@ == bucketname@,
            b._type@ == buckettype@,
            b.client@ == self.name@,
            b.hostname@ == self.hostname@,
            b.created is None,
            b.data@ == "{}"@,
            b.metadata == (BucketMetadata { start: None, end: None }),
            b.events is None,
            b.last_updated is None,
    {
        Bucket {
            bid: None,
            id: copy_str(bucketname),
            _type: copy_str(buckettype),
            client: self.name.clone(),
            hostname: self.hostname.clone(),
            created: None,
            data: copy_str("{}"),
            metadata: BucketMetadata { start: None, end: None },
            events: None,
            last_updated: None,
        }
    }

    /// `POST /api/0/buckets/{id}` with the bucket of `simple_bucket`.
    pub fn create_bucket_simple(&self, bucketname: &str, buckettype: &str) -> (r: Request)
        ensures
            r.method == Method::Post,
            r.url@ == bucket_url(self.baseurl@, bucketname@),
            r.body matches Body::Bucket(b) && b.id@ == bucketname@ && b._type@ == buckettype@
                && b.client@ == self.name@ && b.hostname@ == self.hostname@ && b.bid is None
                && b.created is None && b.data@ == "{}"@ && b.metadata == (BucketMetadata {
                start: None,
                end: None,
            }) && b.events is None && b.last_updated is None,
    {
        let bucket = self.simple_bucket(bucketname, buckettype);
        self.create_bucket(bucket)
    }

    /// `GET /api/0/buckets/{id}/events`, with `start`, `end` (RFC 3339) and `limit`
    /// (base 10) as query parameters when given.
    pub fn get_events(
        &self,
        bucketname: &str,
        start: Option<Timestamp>,
        stop: Option<Timestamp>,
        limit: Option<u64>,
    ) -> (r: Request)
        requires
            start matches Some(t) ==> t.wf(),
            stop matches Some(t) ==> t.wf(),
        ensures
            r.method == Method::Get,
            r.url@ == events_url(self.baseurl@, bucketname@) + query_text(
                event_query(start, stop, limit),
            ),
            r.body is Empty,
    {
        let mut url = self.events_path(bucketname);
        let ghost base = url@;
        let ghost mut ps: Seq<(Seq<char>, Seq<char>)> = Seq::empty();
        proof {
            lemma_query_empty();
        }
        assert(url@ =~= base + query_text(ps));
        let mut first = true;
        if let Some(t) = start {
            let v = rfc3339(&t);
            proof {
                lemma_query_push(ps, ("start"@, v@));
            }
            push_pair(&mut url, first, "start", v.as_str());
            proof {
                ps = ps.push(("start"@, v@));
            }
            first = false;
        }
        assert(first == (ps.len() == 0));
        if let Some(t) = stop {
            let v = rfc3339(&t);
            proof {
                lemma_query_push(ps, ("end"@, v@));
            }
            push_pair(&mut url, first, "end", v.as_str());
            proof {
                ps = ps.push(("end"@, v@));
            }
            first = false;
        }
        assert(first == (ps.len() == 0));
        if let Some(l) = limit {
            let v = decimal(l);
            proof {
                lemma_query_push(ps, ("limit"@, v@));
            }
            push_pair(&mut url, first, "limit", v.as_str());
            proof {
                ps = ps.push(("limit"@, v@));
            }
        }
        assert(ps =~= event_query(start, stop, limit));
        Request { method: Method::Get, url, body: Body::Empty }
    }

    /// `POST /api/0/buckets/{id}/events` with a JSON array holding the one event.
    pub fn insert_event(&self, bucketname: &str, event: &Vec<u8>) -> (r: Request)
        ensures
            r.method == Method::Post,
            r.url@ == events_url(self.baseurl@, bucketname@),
            r.body matches Body::Json(b) && b@ == seq![91u8] + event@ + seq![93u8],
    {
        let mut b: Vec<u8> = Vec::new();
        b.push(91u8);
        push_bytes(&mut b, event);
        b.push(93u8);
        assert(b@ =~= seq![91u8] + event@ + seq![93u8]);
        Request { method: Method::Post, url: self.events_path(bucketname), body: Body::Json(b) }
    }

    /// `POST /api/0/buckets/{id}/events` with a JSON array of the events.
    pub fn insert_events(&self, bucketname: &str, events: Vec<Vec<u8>>) -> (r: Request)
        ensures
            r.method == Method::Post,
            r.url@ == events_url(self.baseurl@, bucketname@),
            r.body matches Body::Json(b) && b@ == json_array(events.deep_view()),
    {
        let b = frame_array(&events);
        Request { method: Method::Post, url: self.events_path(bucketname), body: Body::Json(b) }
    }

    /// `POST /api/0/buckets/{id}/heartbeat?pulsetime={pulsetime}` with the event as body.
    /// `pulsetime` is the merge window in seconds, as base-10 text.
    pub fn heartbeat(&self, bucketname: &str, event: Vec<u8>, pulsetime: &str) -> (r: Request)
        ensures
            r.method == Method::Post,
            r.url@ == heartbeat_url(self.baseurl@, bucketname@, pulsetime@),
            r.body == Body::Json(event),
    {
        let mut url = self.bucket_path(bucketname);
        url.append("/heartbeat?pulsetime=");
        url.append(pulsetime);
        Request { method: Method::Post, url, body: Body::Json(event) }
    }

    /// `DELETE /api/0/buckets/{id}`.
    pub fn delete_bucket(&self, bucketname: &str) -> (r: Request)
        ensures
            r.method == Method::Delete,
            r.url@ == bucket_url(self.baseurl@, bucketname@),
            r.body is Empty,
    {
        Request { method: Method::Delete, url: self.bucket_path(bucketname), body: Body::Empty }
    }

    /// `DELETE /api/0/buckets/{id}/events/{event_id}`.
    pub fn delete_event(&self, bucketname: &str, event_id: i64) -> (r: Request)
        ensures
            r.method == Method::Delete,
            r.url@ == event_url(self.baseurl@, bucketname@, event_id as int),
            r.body is Empty,
    {
        let mut url = self.events_path(bucketname);
        url.append("/");
        let n = signed_decimal(event_id);
        url.append(n.as_str());
        Request { method: Method::Delete, url, body: Body::Empty }
    }

    /// `GET /api/0/buckets/{id}/events/count`.
    pub fn get_event_count(&self, bucketname: &str) -> (r: Request)
        ensures
            r.method == Method::Get,
            r.url@ == count_url(self.baseurl@, bucketname@),
            r.body is Empty,
    {
        let mut url = self.events_path(bucketname);
        url.append("/count");
        Request { method: Method::Get, url, body: Body::Empty }
    }

    /// `GET /api/0/info`.
    pub fn get_info(&self) -> (r: Request)
        ensures
            r.method == Method::Get,
            r.url@ == info_url(self.baseurl@),
            r.body is Empty,
    {
        Request { method: Method::Get, url: self.url_with("/api/0/info"), body: Body::Empty }
    }
}

} // verus!
