//! Route dispatch: which endpoint a request's method and path name.
//!
//! A path is handled as its `/`-separated segments.  Five shapes are
//! served, all under `/adapters`: the adapter listing, the two
//! streaming endpoints, the device listing, and the eight device
//! commands.

use vstd::prelude::*;
use vstd::string::StrSliceExecFns;
use crate::address::{Address, text_denotes, valid_address_text};

verus! {

/// The two request methods the service serves.
#[derive(PartialEq, Eq, Structural, Clone, Copy, Debug)]
pub enum Method {
    Get,
    Post,
}

/// The eight one-shot commands on a resolved device.
#[derive(PartialEq, Eq, Structural, Clone, Copy, Debug)]
pub enum DeviceOp {
    Pair,
    Unpair,
    Connect,
    Disconnect,
    Trust,
    Untrust,
    Block,
    Unblock,
}

/// A resolved endpoint, with its path parameters.
#[derive(Debug)]
pub enum Endpoint {
    /// `GET /adapters`
    Adapters,
    /// `GET /adapters/{name}/events`
    Events { name: String },
    /// `POST /adapters/{name}/discover`
    Discover { name: String },
    /// `GET /adapters/{name}/devices`
    Devices { name: String },
    /// `POST /adapters/{name}/devices/{addr}/...`, one command each
    Device { name: String, addr: Address, op: DeviceOp },
}

/// How a request was dispatched.
#[derive(Debug)]
pub enum Dispatch {
    /// The request names this endpoint.
    To(Endpoint),
    /// A device command whose address text the address grammar
    /// refuses.
    BadAddress,
    /// No endpoint has this method and path.
    NoRoute,
}

/// The specification-level counterpart of [`Dispatch`], over the raw
/// path segments.
pub enum SpecRoute {
    Adapters,
    Events { name: Seq<char> },
    Discover { name: Seq<char> },
    Devices { name: Seq<char> },
    Device { name: Seq<char>, addr: Seq<char>, op: DeviceOp },
    BadAddress,
    NoRoute,
}

/// The path word of each device command.
pub open spec fn op_word(op: DeviceOp) -> Seq<char> {
    match op {
        DeviceOp::Pair => "pair"@,
        DeviceOp::Unpair => "unpair"@,
        DeviceOp::Connect => "connect"@,
        DeviceOp::Disconnect => "disconnect"@,
        DeviceOp::Trust => "trust"@,
        DeviceOp::Untrust => "untrust"@,
        DeviceOp::Block => "block"@,
        DeviceOp::Unblock => "unblock"@,
    }
}

/// The device command a path word names, if any.
pub open spec fn op_of_word(w: Seq<char>) -> Option<DeviceOp> {
    if w == "pair"@ {
        Some(DeviceOp::Pair)
    } else if w == "unpair"@ {
        Some(DeviceOp::Unpair)
    } else if w == "connect"@ {
        Some(DeviceOp::Connect)
    } else if w == "disconnect"@ {
        Some(DeviceOp::Disconnect)
    } else if w == "trust"@ {
        Some(DeviceOp::Trust)
    } else if w == "untrust"@ {
        Some(DeviceOp::Untrust)
    } else if w == "block"@ {
        Some(DeviceOp::Block)
    } else if w == "unblock"@ {
        Some(DeviceOp::Unblock)
    } else {
        None
    }
}

/// Where a method and path lead.  A path starting with `/` splits
/// into segments whose first is empty, so `/adapters` arrives as the
/// two segments `["", "adapters"]`.
pub open spec fn spec_route(m: Method, segs: Seq<Seq<char>>) -> SpecRoute {
    if segs.len() == 2 && segs[0].len() == 0 && segs[1] == "adapters"@ {
        if m == Method::Get {
            SpecRoute::Adapters
        } else {
            SpecRoute::NoRoute
        }
    } else if segs.len() == 4 && segs[0].len() == 0 && segs[1] == "adapters"@ && segs[2].len()
        > 0 {
        if m == Method::Get && segs[3] == "events"@ {
            SpecRoute::Events { name: segs[2] }
        } else if m == Method::Post && segs[3] == "discover"@ {
            SpecRoute::Discover { name: segs[2] }
        } else if m == Method::Get && segs[3] == "devices"@ {
            SpecRoute::Devices { name: segs[2] }
        } else {
            SpecRoute::NoRoute
        }
    } else if segs.len() == 6 && segs[0].len() == 0 && segs[1] == "adapters"@ && segs[2].len() > 0
        && segs[3] == "devices"@ && op_of_word(segs[5]) is Some {
        if m != Method::Post {
            SpecRoute::NoRoute
        } else if valid_address_text(segs[4]) {
            SpecRoute::Device { name: segs[2], addr: segs[4], op: op_of_word(segs[5])->0 }
        } else {
            SpecRoute::BadAddress
        }
    } else {
        SpecRoute::NoRoute
    }
}

/// The executable dispatch result agrees with the specification
/// route: same endpoint, the same parameter texts, and an address
/// whose bytes the address text denotes.
pub open spec fn dispatch_matches(r: Dispatch, s: SpecRoute) -> bool {
    match (r, s) {
        (Dispatch::To(Endpoint::Adapters), SpecRoute::Adapters) => true,
        (Dispatch::To(Endpoint::Events { name }), SpecRoute::Events { name: n }) => name@ == n,
        (Dispatch::To(Endpoint::Discover { name }), SpecRoute::Discover { name: n }) => name@ == n,
        (Dispatch::To(Endpoint::Devices { name }), SpecRoute::Devices { name: n }) => name@ == n,
        (
            Dispatch::To(Endpoint::Device { name, addr, op }),
            SpecRoute::Device { name: n, addr: a, op: o },
        ) => name@ == n && text_denotes(a, addr) && op == o,
        (Dispatch::BadAddress, SpecRoute::BadAddress) => true,
        (Dispatch::NoRoute, SpecRoute::NoRoute) => true,
        _ => false,
    }
}

/// No separator stands in the segment.
pub open spec fn no_sep(s: Seq<char>) -> bool {
    forall|k: int| 0 <= k < s.len() ==> s[k] != '/'
}

/// The segments joined back with `/` between them.
pub open spec fn join_segs(ss: Seq<Seq<char>>) -> Seq<char>
    decreases ss.len(),
{
    if ss.len() == 0 {
        Seq::empty()
    } else if ss.len() == 1 {
        ss[0]
    } else {
        ss[0] + seq!['/'] + join_segs(ss.drop_first())
    }
}

/// Joining after one more segment appends a separator and that
/// segment, except onto an empty list.
pub proof fn lemma_join_push(ss: Seq<Seq<char>>, last: Seq<char>)
    ensures
        ss.len() == 0 ==> join_segs(ss.push(last)) == last,
        ss.len() > 0 ==> join_segs(ss.push(last)) == join_segs(ss) + seq!['/'] + last,
    decreases ss.len(),
{
    if ss.len() == 0 {
        assert(ss.push(last) =~= seq![last]);
    } else if ss.len() == 1 {
        assert(ss.push(last)[0] == ss[0]);
        assert(ss.push(last).drop_first() =~= seq![last]);
        assert(join_segs(ss.push(last)) == ss.push(last)[0] + seq!['/'] + join_segs(
            ss.push(last).drop_first(),
        ));
        assert(join_segs(seq![last]) == last);
        assert(join_segs(ss) == ss[0]);
    } else {
        lemma_join_push(ss.drop_first(), last);
        assert(ss.push(last)[0] == ss[0]);
        assert(ss.push(last).drop_first() =~= ss.drop_first().push(last));
        assert(join_segs(ss.push(last)) == ss[0] + seq!['/'] + join_segs(
            ss.drop_first().push(last),
        ));
        assert(join_segs(ss.drop_first().push(last)) == join_segs(ss.drop_first()) + seq!['/']
            + last);
        assert((ss[0] + seq!['/'] + (join_segs(ss.drop_first()) + seq!['/'] + last)) =~= ((ss[0]
            + seq!['/'] + join_segs(ss.drop_first())) + seq!['/'] + last));
    }
}

/// Joining is injective: two segment lists without separators that
/// join to the same path are the same list.  With this,
/// [`split_path`]'s contract pins its result completely.
pub proof fn lemma_split_unique(ss1: Seq<Seq<char>>, ss2: Seq<Seq<char>>)
    requires
        ss1.len() >= 1,
        ss2.len() >= 1,
        forall|k: int| 0 <= k < ss1.len() ==> no_sep(#[trigger] ss1[k]),
        forall|k: int| 0 <= k < ss2.len() ==> no_sep(#[trigger] ss2[k]),
        join_segs(ss1) == join_segs(ss2),
    ensures
        ss1 == ss2,
    decreases ss1.len(),
{
    let j = join_segs(ss1);
    if ss1.len() == 1 && ss2.len() == 1 {
        assert(ss1 =~= ss2);
    } else if ss1.len() == 1 {
        let p = ss2[0].len() as int;
        assert(join_segs(ss2) == ss2[0] + seq!['/'] + join_segs(ss2.drop_first()));
        assert(join_segs(ss2)[p] == '/');
        assert(no_sep(ss1[0]));
        assert(j[p] != '/');
        assert(false);
    } else if ss2.len() == 1 {
        let p = ss1[0].len() as int;
        assert(join_segs(ss1) == ss1[0] + seq!['/'] + join_segs(ss1.drop_first()));
        assert(join_segs(ss1)[p] == '/');
        assert(no_sep(ss2[0]));
        assert(j[p] != '/');
        assert(false);
    } else {
        let a = ss1[0];
        let b = ss2[0];
        let t1 = join_segs(ss1.drop_first());
        let t2 = join_segs(ss2.drop_first());
        assert(join_segs(ss1) == a + seq!['/'] + t1);
        assert(join_segs(ss2) == b + seq!['/'] + t2);
        if a.len() < b.len() {
            assert(j[a.len() as int] == '/');
            assert(j[a.len() as int] == b[a.len() as int]);
            assert(no_sep(b));
            assert(false);
        } else if b.len() < a.len() {
            assert(j[b.len() as int] == '/');
            assert(j[b.len() as int] == a[b.len() as int]);
            assert(no_sep(a));
            assert(false);
        }
        assert forall|i: int| 0 <= i < a.len() implies a[i] == b[i] by {
            assert(j[i] == a[i]);
            assert(j[i] == b[i]);
        }
        assert(a =~= b);
        assert(t1.len() == t2.len());
        assert forall|i: int| 0 <= i < t1.len() implies t1[i] == t2[i] by {
            assert(j[a.len() + 1 + i] == t1[i]);
            assert(j[b.len() + 1 + i] == t2[i]);
        }
        assert(t1 =~= t2);
        assert(forall|k: int|
            0 <= k < ss1.drop_first().len() ==> no_sep(#[trigger] ss1.drop_first()[k]));
        assert(forall|k: int|
            0 <= k < ss2.drop_first().len() ==> no_sep(#[trigger] ss2.drop_first()[k]));
        lemma_split_unique(ss1.drop_first(), ss2.drop_first());
        assert forall|i: int| 0 <= i < ss1.len() implies ss1[i] == ss2[i] by {
            if i > 0 {
                assert(ss1[i] == ss1.drop_first()[i - 1]);
                assert(ss2[i] == ss2.drop_first()[i - 1]);
            }
        }
        assert(ss1 =~= ss2);
    }
}

/// Splits a path at every `/`.  The segments carry no separator, and
/// joined back with `/` they give the path back: nothing is lost,
/// reordered or invented.
#[verifier::loop_isolation(false)]
pub fn split_path(p: &str) -> (segs: Vec<String>)
    ensures
        segs@.len() >= 1,
        forall|k: int| 0 <= k < segs@.len() ==> no_sep((#[trigger] segs@[k])@),
        join_segs(segs.deep_view()) == p@,
{
    let n = p.unicode_len();
    let mut segs: Vec<String> = Vec::new();
    let mut start: usize = 0;
    let mut i: usize = 0;
    while i < n
        invariant
            start <= i <= n,
            forall|k: int| start <= k < i ==> p@[k] != '/',
            forall|k: int| 0 <= k < segs@.len() ==> no_sep((#[trigger] segs@[k])@),
            segs@.len() == 0 ==> start == 0,
            segs@.len() > 0 ==> {
                &&& start >= 1
                &&& p@[start - 1] == '/'
                &&& join_segs(segs.deep_view()) == p@.subrange(0, start - 1)
            },
        decreases n - i,
    {
        if p.get_char(i) == '/' {
            let ghost old_segs = segs.deep_view();
            let piece = p.substring_char(start, i).to_owned();
            segs.push(piece);
            proof {
                assert(segs.deep_view() =~= old_segs.push(piece@));
                lemma_join_push(old_segs, piece@);
                if old_segs.len() == 0 {
                    assert(join_segs(segs.deep_view()) =~= p@.subrange(0, i as int));
                } else {
                    assert(join_segs(segs.deep_view()) =~= (p@.subrange(0, start - 1) + seq!['/']
                        + p@.subrange(start as int, i as int)));
                    assert(join_segs(segs.deep_view()) =~= p@.subrange(0, i as int));
                }
            }
            start = i + 1;
        }
        i += 1;
    }
    let ghost old_segs = segs.deep_view();
    let piece = p.substring_char(start, n).to_owned();
    segs.push(piece);
    proof {
        assert(segs.deep_view() =~= old_segs.push(piece@));
        lemma_join_push(old_segs, piece@);
        if old_segs.len() == 0 {
            assert(join_segs(segs.deep_view()) =~= p@);
        } else {
            assert(join_segs(segs.deep_view()) =~= (p@.subrange(0, start - 1) + seq!['/']
                + p@.subrange(start as int, n as int)));
            assert(join_segs(segs.deep_view()) =~= p@);
        }
    }
    segs
}

/// Character-for-character equality of two pieces of text.
pub(crate) fn str_eq(a: &str, b: &str) -> (r: bool)
    ensures
        r == (a@ == b@),
{
    let n = a.unicode_len();
    if n != b.unicode_len() {
        return false;
    }
    let mut i: usize = 0;
    while i < n
        invariant
            n == a@.len(),
            n == b@.len(),
            i <= n,
            forall|k: int| 0 <= k < i ==> a@[k] == b@[k],
        decreases n - i,
    {
        if a.get_char(i) != b.get_char(i) {
            return false;
        }
        i += 1;
    }
    proof {
        assert(a@ =~= b@);
    }
    true
}

/// The device command a path word names, if any.
fn op_of(w: &str) -> (r: Option<DeviceOp>)
    ensures
        r == op_of_word(w@),
{
    if str_eq(w, "pair") {
        Some(DeviceOp::Pair)
    } else if str_eq(w, "unpair") {
        Some(DeviceOp::Unpair)
    } else if str_eq(w, "connect") {
        Some(DeviceOp::Connect)
    } else if str_eq(w, "disconnect") {
        Some(DeviceOp::Disconnect)
    } else if str_eq(w, "trust") {
        Some(DeviceOp::Trust)
    } else if str_eq(w, "untrust") {
        Some(DeviceOp::Untrust)
    } else if str_eq(w, "block") {
        Some(DeviceOp::Block)
    } else if str_eq(w, "unblock") {
        Some(DeviceOp::Unblock)
    } else {
        None
    }
}

/// Dispatches one request: decides, from the method and the path
/// segments, which endpoint is asked for, and carries its parameters
/// out of the path.
pub fn route(m: Method, segs: &Vec<String>) -> (r: Dispatch)
    ensures
        dispatch_matches(r, spec_route(m, segs.deep_view())),
{
    let n = segs.len();
    proof {
        assert(segs.deep_view().len() == n);
        assert(forall|k: int| 0 <= k < n ==> segs.deep_view()[k] == segs@[k]@);
    }
    if n == 2 && segs[0].as_str().is_empty() && str_eq(segs[1].as_str(), "adapters") {
        if m == Method::Get {
            Dispatch::To(Endpoint::Adapters)
        } else {
            Dispatch::NoRoute
        }
    } else if n == 4 && segs[0].as_str().is_empty() && str_eq(segs[1].as_str(), "adapters")
        && !segs[2].as_str().is_empty() {
        if m == Method::Get && str_eq(segs[3].as_str(), "events") {
            Dispatch::To(Endpoint::Events { name: segs[2].clone() })
        } else if m == Method::Post && str_eq(segs[3].as_str(), "discover") {
            Dispatch::To(Endpoint::Discover { name: segs[2].clone() })
        } else if m == Method::Get && str_eq(segs[3].as_str(), "devices") {
            Dispatch::To(Endpoint::Devices { name: segs[2].clone() })
        } else {
            Dispatch::NoRoute
        }
    } else if n == 6 && segs[0].as_str().is_empty() && str_eq(segs[1].as_str(), "adapters")
        && !segs[2].as_str().is_empty() && str_eq(segs[3].as_str(), "devices") {
        let op = match op_of(segs[5].as_str()) {
            Some(op) => op,
            None => {
                return Dispatch::NoRoute;
            },
        };
        if m != Method::Post {
            Dispatch::NoRoute
        } else {
            match Address::parse(segs[4].as_str()) {
                Some(addr) => Dispatch::To(
                    Endpoint::Device { name: segs[2].clone(), addr, op },
                ),
                None => Dispatch::BadAddress,
            }
        }
    } else {
        Dispatch::NoRoute
    }
}

} // verus!
