use vstd::prelude::*;

verus! {

use crate::error::Error;
use crate::error::ErrorV;
use crate::json::Fields;
use crate::json::Scalar;
use crate::json::ScalarV;
use crate::json::fields_view;
use crate::json::lookup;
use crate::json::p_objects;
use crate::json::p_ws;
use crate::json::sp_lookup;
use crate::json::sp_objects;
use crate::json::sp_ws;
use crate::text::chars_of;
use crate::text::string_from_chars;
use vstd::string::StringExecFns;

/// The mathematical value of a [`Bridge`].
#[verifier::ext_equal]
pub struct BridgeV {
    pub host: Seq<char>,
    pub id: Seq<char>,
    pub port: u16,
}

/// The core component
///
/// The Philips Hue Bridge is a ZigBee hub used to talk with lights and other
/// devices. It offers a REST API which is used by this crate.
#[derive(Debug)]
pub struct Bridge {
    /// The host name where the HTTP requests are sent to, as text: a domain
    /// name, an IPv4 literal, or a bracketed IPv6 literal, normalized by the
    /// URL host parser.
    host: String,
    /// The unique id of the bridge. The `host` may change but the `id` doesn't.
    id: String,
    /// The port for the REST API.
    port: u16,
}

impl View for Bridge {
    type V = BridgeV;

    closed spec fn view(&self) -> BridgeV {
        BridgeV { host: self.host@, id: self.id@, port: self.port }
    }
}

impl Bridge {
    /// Builds the identity of one discovered bridge from its discovery fields.
    pub fn new(host: String, id: String, port: u16) -> (r: Bridge)
        ensures
            r@ == (BridgeV { host: host@, id: id@, port }),
    {
        Bridge { host, id, port }
    }

    /// The host which is used for the communication with the [Bridge].
    ///
    /// Note that the host should not be used for the unique identification
    /// of a [Bridge]. Instead, use the `id`.
    pub fn host(&self) -> (r: &String)
        ensures
            r@ == self@.host,
    {
        &self.host
    }

    /// The unique, permanent identifier of the [Bridge]. Unlike the host,
    /// this won't change.
    pub fn id(&self) -> (r: &str)
        ensures
            r@ == self@.id,
    {
        self.id.as_str()
    }

    /// The port at which the REST API is located. This should be 443 for https
    /// or 80 for http.
    pub fn port(&self) -> (r: u16)
        ensures
            r == self@.port,
    {
        self.port
    }
}

/// What the URL host parser makes of a piece of text: the normalized host when
/// the text is a valid domain name, IPv4 literal or bracketed IPv6 literal,
/// and nothing otherwise.
pub uninterp spec fn host_parsed(s: Seq<char>) -> Option<Seq<char>>;

/// Relies on url::Host::parse, the WHATWG URL host parser: it accepts domain
/// names (IDNA-normalized to lower-case ASCII), IPv4 literals and bracketed
/// IPv6 literals, rejects anything else, and never panics; the shown form of
/// the parsed host depends on the input text alone.
#[verifier::external_body]
fn parse_host(s: &str) -> (r: Option<String>)
    ensures
        match r {
            Some(h) => host_parsed(s@) == Some(h@),
            None => host_parsed(s@) is None,
        },
{
    match url::Host::parse(s) {
        Ok(h) => Some(h.to_string()),
        Err(_) => None,
    }
}

/// One record of the discovery service, before host validation.
#[verifier::ext_equal]
pub struct RecordV {
    pub ip: Seq<char>,
    pub id: Seq<char>,
    pub port: u16,
}

struct Record {
    ip: Vec<char>,
    id: Vec<char>,
    port: u16,
}

impl View for Record {
    type V = RecordV;

    closed spec fn view(&self) -> RecordV {
        RecordV { ip: self.ip@, id: self.id@, port: self.port }
    }
}

/// The interpretation of one parsed discovery object: its `internalipaddress`,
/// `id` and `port` members, with `port` fitting a port number.
pub open spec fn sp_record(fields: Seq<(Seq<char>, ScalarV)>) -> Option<RecordV> {
    match (
        sp_lookup(fields, "internalipaddress"@),
        sp_lookup(fields, "id"@),
        sp_lookup(fields, "port"@),
    ) {
        (Some(ScalarV::Text(ip)), Some(ScalarV::Text(id)), Some(ScalarV::UInt(p))) => if p
            <= u16::MAX {
            Some(RecordV { ip, id, port: p as u16 })
        } else {
            None
        },
        _ => None,
    }
}

/// The interpretation of all discovery objects, in order; `None` as soon as
/// one of them is not a discovery record.
pub open spec fn sp_records(objs: Seq<Seq<(Seq<char>, ScalarV)>>) -> Option<Seq<RecordV>>
    decreases objs.len(),
{
    if objs.len() == 0 {
        Some(Seq::empty())
    } else {
        match sp_record(objs[0]) {
            Some(r) => match sp_records(objs.drop_first()) {
                Some(rest) => Some(seq![r] + rest),
                None => None,
            },
            None => None,
        }
    }
}

/// The bridge identity a record yields once its address text passes the URL
/// host parser.
pub open spec fn sp_bridge_of(r: RecordV) -> Option<BridgeV> {
    match host_parsed(r.ip) {
        Some(h) => Some(BridgeV { host: h, id: r.id, port: r.port }),
        None => None,
    }
}

/// The bridge identities of all records, in order; `None` as soon as one
/// address text is not a valid host.
pub open spec fn sp_bridges(recs: Seq<RecordV>) -> Option<Seq<BridgeV>>
    decreases recs.len(),
{
    if recs.len() == 0 {
        Some(Seq::empty())
    } else {
        match sp_bridge_of(recs[0]) {
            Some(b) => match sp_bridges(recs.drop_first()) {
                Some(rest) => Some(seq![b] + rest),
                None => None,
            },
            None => None,
        }
    }
}

/// The response of the discovery service: a JSON array of flat objects.
pub open spec fn sp_discovery_objects(s: Seq<char>) -> Option<Seq<Seq<(Seq<char>, ScalarV)>>> {
    let i0 = sp_ws(s, 0);
    if i0 < s.len() && s[i0] == '[' {
        let i1 = sp_ws(s, i0 + 1);
        if i1 < s.len() && s[i1] == ']' {
            if sp_ws(s, i1 + 1) == s.len() {
                Some(Seq::empty())
            } else {
                None
            }
        } else {
            match sp_objects(s, i1) {
                Some((objs, j)) => if sp_ws(s, j) == s.len() {
                    Some(objs)
                } else {
                    None
                },
                None => None,
            }
        }
    } else {
        None
    }
}

/// Whether `x` occurs among `bs`.
pub open spec fn sp_contains(bs: Seq<BridgeV>, x: BridgeV) -> bool {
    exists|k: int| 0 <= k < bs.len() && bs[k] == x
}

/// `bs` with every later repetition of an identity removed: each identity
/// keeps its first occurrence, in order.
pub open spec fn sp_dedup(bs: Seq<BridgeV>) -> Seq<BridgeV>
    decreases bs.len(),
{
    if bs.len() == 0 {
        Seq::empty()
    } else {
        let front = sp_dedup(bs.drop_last());
        if sp_contains(front, bs.last()) {
            front
        } else {
            front.push(bs.last())
        }
    }
}

/// What discovery makes of one response body: the parsed records, each mapped
/// to a bridge identity, merged into a duplicate-free set; `None` when the
/// body is malformed or an address text is not a valid host.
pub open spec fn sp_discover(s: Seq<char>) -> Option<Seq<BridgeV>> {
    match sp_discovery_objects(s) {
        Some(objs) => match sp_records(objs) {
            Some(recs) => match sp_bridges(recs) {
                Some(bs) => Some(sp_dedup(bs)),
                None => None,
            },
            None => None,
        },
        None => None,
    }
}

proof fn lemma_contains_snoc(bs: Seq<BridgeV>, x: BridgeV)
    requires
        bs.len() >= 1,
    ensures
        sp_contains(bs, x) == (sp_contains(bs.drop_last(), x) || x == bs.last()),
{
    if sp_contains(bs, x) {
        let k = choose|k: int| 0 <= k < bs.len() && bs[k] == x;
        if k < bs.len() - 1 {
            assert(bs.drop_last()[k] == x);
        }
    }
    if sp_contains(bs.drop_last(), x) {
        let k = choose|k: int| 0 <= k < bs.drop_last().len() && bs.drop_last()[k] == x;
        assert(bs[k] == x);
    }
    if x == bs.last() {
        assert(bs[bs.len() - 1] == x);
    }
}

/// De-duplication loses no identity and invents none: an identity occurs in
/// the merged set exactly when some discovery strategy produced it.
pub proof fn lemma_dedup_keeps_every_identity(bs: Seq<BridgeV>, x: BridgeV)
    ensures
        sp_contains(sp_dedup(bs), x) == sp_contains(bs, x),
    decreases bs.len(),
{
    if bs.len() == 0 {
    } else {
        lemma_dedup_keeps_every_identity(bs.drop_last(), x);
        lemma_contains_snoc(bs, x);
        let front = sp_dedup(bs.drop_last());
        if sp_contains(front, bs.last()) {
        } else {
            assert(sp_dedup(bs) == front.push(bs.last()));
            if sp_contains(bs, x) {
                if x == bs.last() {
                    assert(front.push(bs.last())[front.len() as int] == x);
                } else {
                    let k = choose|k: int| 0 <= k < front.len() && front[k] == x;
                    assert(front.push(bs.last())[k] == x);
                }
            }
            if sp_contains(front.push(bs.last()), x) {
                let k = choose|k: int|
                    0 <= k < front.push(bs.last()).len() && front.push(bs.last())[k] == x;
                if k < front.len() {
                    assert(front[k] == x);
                }
            }
        }
    }
}

/// The merged set holds each identity at most once: two records identical in
/// host, id and port collapse into one entry, while records differing in any
/// field survive as distinct entries.
pub proof fn lemma_dedup_no_duplicates(bs: Seq<BridgeV>)
    ensures
        forall|i: int, j: int|
            0 <= i < j < sp_dedup(bs).len() ==> sp_dedup(bs)[i] != sp_dedup(bs)[j],
    decreases bs.len(),
{
    if bs.len() == 0 {
    } else {
        lemma_dedup_no_duplicates(bs.drop_last());
        let front = sp_dedup(bs.drop_last());
        if !sp_contains(front, bs.last()) {
            assert forall|i: int, j: int|
                0 <= i < j < front.push(bs.last()).len() implies front.push(bs.last())[i]
                != front.push(bs.last())[j] by {
                if j < front.len() {
                } else {
                    assert(front.push(bs.last())[j] == bs.last());
                    assert(front[i] != bs.last()) by {
                        if front[i] == bs.last() {
                            assert(sp_contains(front, bs.last()));
                        }
                    }
                }
            }
        }
    }
}

fn record_of(fields: &Fields) -> (r: Option<Record>)
    ensures
        match r {
            Some(rec) => sp_record(fields_view(*fields)) == Some(rec@),
            None => sp_record(fields_view(*fields)) is None,
        },
{
    let ip = lookup(fields, &chars_of("internalipaddress"));
    let id = lookup(fields, &chars_of("id"));
    let p = lookup(fields, &chars_of("port"));
    match (ip, id, p) {
        (Some(Scalar::Text(ip)), Some(Scalar::Text(id)), Some(Scalar::UInt(p))) => {
            if p <= u16::MAX as u64 {
                let rec = Record { ip, id, port: p as u16 };
                proof {
                    assert(sp_record(fields_view(*fields)) == Some(rec@));
                }
                Some(rec)
            } else {
                None
            }
        },
        _ => None,
    }
}

fn records_of(objs: &Vec<Fields>, k: usize) -> (r: Option<Vec<Record>>)
    requires
        k <= objs@.len(),
    ensures
        match r {
            Some(v) => sp_records(objs@.map_values(|o: Fields| fields_view(o)).skip(k as int))
                == Some(v@.map_values(|x: Record| x@)),
            None => sp_records(objs@.map_values(|o: Fields| fields_view(o)).skip(k as int)) is None,
        },
    decreases objs@.len() - k,
{
    let ghost ovs = objs@.map_values(|o: Fields| fields_view(o));
    if k == objs.len() {
        let v: Vec<Record> = Vec::new();
        proof {
            assert(ovs.skip(k as int) =~= Seq::<Seq<(Seq<char>, ScalarV)>>::empty());
            assert(v@.map_values(|x: Record| x@) =~= Seq::<RecordV>::empty());
        }
        Some(v)
    } else {
        proof {
            assert(ovs.skip(k as int)[0] == ovs[k as int]);
            assert(ovs.skip(k as int).drop_first() =~= ovs.skip(k + 1 as int));
        }
        match record_of(&objs[k]) {
            Some(rec) => match records_of(objs, k + 1) {
                Some(mut rest) => {
                    let ghost r0 = rest@;
                    let ghost rv = rec@;
                    rest.insert(0, rec);
                    proof {
                        assert(rest@.map_values(|x: Record| x@) =~= seq![rv] + r0.map_values(
                            |x: Record| x@,
                        ));
                    }
                    Some(rest)
                },
                None => None,
            },
            None => None,
        }
    }
}

fn bridges_of(recs: &Vec<Record>, k: usize) -> (r: Option<Vec<Bridge>>)
    requires
        k <= recs@.len(),
    ensures
        match r {
            Some(v) => sp_bridges(recs@.map_values(|x: Record| x@).skip(k as int)) == Some(
                v@.map_values(|b: Bridge| b@),
            ),
            None => sp_bridges(recs@.map_values(|x: Record| x@).skip(k as int)) is None,
        },
    decreases recs@.len() - k,
{
    let ghost rvs = recs@.map_values(|x: Record| x@);
    if k == recs.len() {
        let v: Vec<Bridge> = Vec::new();
        proof {
            assert(rvs.skip(k as int) =~= Seq::<RecordV>::empty());
            assert(v@.map_values(|b: Bridge| b@) =~= Seq::<BridgeV>::empty());
        }
        Some(v)
    } else {
        proof {
            assert(rvs.skip(k as int)[0] == rvs[k as int]);
            assert(rvs.skip(k as int).drop_first() =~= rvs.skip(k + 1 as int));
        }
        let ip_text = string_from_chars(&recs[k].ip);
        match parse_host(ip_text.as_str()) {
            Some(host) => {
                let id = string_from_chars(&recs[k].id);
                let b = Bridge { host, id, port: recs[k].port };
                match bridges_of(recs, k + 1) {
                    Some(mut rest) => {
                        let ghost r0 = rest@;
                        let ghost bv = b@;
                        rest.insert(0, b);
                        proof {
                            assert(rest@.map_values(|x: Bridge| x@) =~= seq![bv] + r0.map_values(
                                |x: Bridge| x@,
                            ));
                        }
                        Some(rest)
                    },
                    None => None,
                }
            },
            None => None,
        }
    }
}

fn bridge_eq(a: &Bridge, b: &Bridge) -> (r: bool)
    ensures
        r == (a@ == b@),
{
    let same = a.host == b.host && a.id == b.id && a.port == b.port;
    proof {
        if same {
            assert(a@ =~= b@);
        }
    }
    same
}

fn contains_bridge(v: &Vec<Bridge>, b: &Bridge) -> (r: bool)
    ensures
        r == sp_contains(v@.map_values(|x: Bridge| x@), b@),
{
    let ghost vs = v@.map_values(|x: Bridge| x@);
    let mut i: usize = 0;
    while i < v.len()
        invariant
            i <= v@.len(),
            vs == v@.map_values(|x: Bridge| x@),
            forall|k: int| 0 <= k < i ==> vs[k] != b@,
        decreases v@.len() - i,
    {
        if bridge_eq(&v[i], b) {
            proof {
                assert(vs[i as int] == b@);
            }
            return true;
        }
        i = i + 1;
    }
    false
}

fn dedup_bridges(bs: Vec<Bridge>) -> (r: Vec<Bridge>)
    ensures
        r@.map_values(|b: Bridge| b@) == sp_dedup(bs@.map_values(|b: Bridge| b@)),
{
    let ghost vs = bs@.map_values(|b: Bridge| b@);
    let mut out: Vec<Bridge> = Vec::new();
    let mut i: usize = 0;
    proof {
        assert(vs.subrange(0, 0) =~= Seq::<BridgeV>::empty());
        assert(out@.map_values(|b: Bridge| b@) =~= Seq::<BridgeV>::empty());
    }
    while i < bs.len()
        invariant
            i <= bs@.len(),
            vs == bs@.map_values(|b: Bridge| b@),
            out@.map_values(|b: Bridge| b@) == sp_dedup(vs.subrange(0, i as int)),
        decreases bs@.len() - i,
    {
        proof {
            assert(vs.subrange(0, i + 1 as int).drop_last() =~= vs.subrange(0, i as int));
            assert(vs.subrange(0, i + 1 as int).last() == vs[i as int]);
        }
        let b = Bridge {
            host: bs[i].host.clone(),
            id: bs[i].id.clone(),
            port: bs[i].port,
        };
        proof {
            assert(b@ =~= vs[i as int]);
        }
        if !contains_bridge(&out, &b) {
            let ghost o0 = out@;
            out.push(b);
            proof {
                assert(out@.map_values(|x: Bridge| x@) =~= o0.map_values(|x: Bridge| x@).push(
                    vs[i as int],
                ));
            }
        }
        i = i + 1;
    }
    proof {
        assert(vs.subrange(0, bs@.len() as int) =~= vs);
    }
    out
}

fn p_discovery_objects(s: &Vec<char>) -> (r: Option<Vec<Fields>>)
    ensures
        match r {
            Some(objs) => sp_discovery_objects(s@) == Some(
                objs@.map_values(|o: Fields| fields_view(o)),
            ),
            None => sp_discovery_objects(s@) is None,
        },
{
    let i0 = p_ws(s, 0);
    if i0 < s.len() && s[i0] == '[' {
        let i1 = p_ws(s, i0 + 1);
        if i1 < s.len() && s[i1] == ']' {
            if p_ws(s, i1 + 1) == s.len() {
                let objs: Vec<Fields> = Vec::new();
                proof {
                    assert(objs@.map_values(|o: Fields| fields_view(o)) =~= Seq::<
                        Seq<(Seq<char>, ScalarV)>,
                    >::empty());
                }
                Some(objs)
            } else {
                None
            }
        } else {
            match p_objects(s, i1) {
                Some((objs, j)) => {
                    if p_ws(s, j) == s.len() {
                        Some(objs)
                    } else {
                        None
                    }
                },
                None => None,
            }
        }
    } else {
        None
    }
}

impl Bridge {
    /// Bridge discovery
    ///
    /// Turns one response body of the discovery endpoint into the set of
    /// bridges it describes: a JSON array of records, each carrying an
    /// `internalipaddress` (validated and normalized as a host: both host
    /// names and IP literals are accepted), a unique `id` and a `port`.
    /// The records are merged into a single set, de-duplicated by full
    /// equality of host, id and port. An empty set is not an error.
    ///
    /// A malformed body, a record without the three members, or an address
    /// text that is not a valid host fails the entire discovery with a
    /// transport error rather than silently dropping results.
    pub fn discover(body: &str) -> (r: Result<Vec<Bridge>, Error>)
        ensures
            match r {
                Ok(bs) => sp_discover(body@) == Some(bs@.map_values(|b: Bridge| b@)),
                Err(e) => sp_discover(body@) is None && e@ matches ErrorV::Http(_),
            },
    {
        let s = chars_of(body);
        match p_discovery_objects(&s) {
            Some(objs) => {
                proof {
                    assert(objs@.map_values(|o: Fields| fields_view(o)).skip(0)
                        =~= objs@.map_values(|o: Fields| fields_view(o)));
                }
                match records_of(&objs, 0) {
                    Some(recs) => {
                        proof {
                            assert(recs@.map_values(|x: Record| x@).skip(0) =~= recs@.map_values(
                                |x: Record| x@,
                            ));
                        }
                        match bridges_of(&recs, 0) {
                            Some(bs) => Ok(dedup_bridges(bs)),
                            None => Err(
                                Error::Http(
                                    String::from_str(
                                        "discovery record with an invalid bridge address",
                                    ),
                                ),
                            ),
                        }
                    },
                    None => Err(
                        Error::Http(String::from_str("malformed discovery response")),
                    ),
                }
            },
            None => Err(Error::Http(String::from_str("malformed discovery response"))),
        }
    }
}

} // verus!
