//! The service's reference semantics: the subsystem's state as the
//! service sees it, and what each endpoint reads or changes.
//!
//! The real pairing, connection and discovery machinery lives in the
//! host's Bluetooth subsystem; this model records the part of its
//! state the service reports - the adapters by name, and each
//! adapter's devices with their flags - and gives every endpoint its
//! exact meaning over that state, for a subsystem that accepts each
//! command.

use vstd::prelude::*;
use crate::address::Address;
use crate::devices::{DeviceInfo, clone_devices};
use crate::response::{
    HttpResponse,
    ResponseBody,
    StreamKind,
    is_not_found,
    is_ok_ack,
    is_stream,
};
use crate::routes::{DeviceOp, Endpoint};

verus! {

/// One adapter as the subsystem reports it: its name and the devices
/// it knows.
#[derive(Debug)]
pub struct AdapterState {
    pub name: String,
    pub devices: Vec<DeviceInfo>,
}

/// The subsystem's state as the service sees it.
#[derive(Debug)]
pub struct BtState {
    pub adapters: Vec<AdapterState>,
}

/// Two addresses carry the same six bytes.
pub open spec fn same_address(a: Address, b: Address) -> bool {
    a.bytes@ == b.bytes@
}

/// No two devices of one adapter share an address.
pub open spec fn devices_wf(devs: Seq<DeviceInfo>) -> bool {
    forall|i: int, j: int|
        0 <= i < j < devs.len() ==> !same_address(
            (#[trigger] devs[i]).address,
            (#[trigger] devs[j]).address,
        )
}

/// Adapter names are distinct, and every adapter's devices are
/// well-formed.
pub open spec fn state_wf(s: BtState) -> bool {
    &&& forall|i: int, j: int|
        0 <= i < j < s.adapters@.len() ==> (#[trigger] s.adapters@[i]).name@ != (
        #[trigger] s.adapters@[j]).name@
    &&& forall|i: int|
        0 <= i < s.adapters@.len() ==> devices_wf((#[trigger] s.adapters@[i]).devices@)
}

/// The names of the known adapters, in the subsystem's order.
pub open spec fn adapter_names(s: BtState) -> Seq<Seq<char>> {
    Seq::new(s.adapters@.len(), |i: int| s.adapters@[i].name@)
}

/// Some adapter carries this name.
pub open spec fn has_adapter(s: BtState, name: Seq<char>) -> bool {
    exists|i: int| 0 <= i < s.adapters@.len() && (#[trigger] s.adapters@[i]).name@ == name
}

/// The position of the adapter with this name.
pub open spec fn adapter_index(s: BtState, name: Seq<char>) -> int {
    choose|i: int| 0 <= i < s.adapters@.len() && (#[trigger] s.adapters@[i]).name@ == name
}

/// Some device of the listing carries this address.
pub open spec fn has_device(devs: Seq<DeviceInfo>, addr: Address) -> bool {
    exists|i: int| 0 <= i < devs.len() && same_address((#[trigger] devs[i]).address, addr)
}

/// The position of the device with this address.
pub open spec fn device_index(devs: Seq<DeviceInfo>, addr: Address) -> int {
    choose|i: int| 0 <= i < devs.len() && same_address((#[trigger] devs[i]).address, addr)
}

/// In a well-formed state, an adapter position with the sought name
/// is the position [`adapter_index`] names.
pub proof fn lemma_adapter_index_is(s: BtState, name: Seq<char>, i: int)
    requires
        state_wf(s),
        0 <= i < s.adapters@.len(),
        s.adapters@[i].name@ == name,
    ensures
        has_adapter(s, name),
        adapter_index(s, name) == i,
{
    assert(has_adapter(s, name));
    let j = adapter_index(s, name);
    if i < j {
        assert(s.adapters@[i].name@ != s.adapters@[j].name@);
    } else if j < i {
        assert(s.adapters@[j].name@ != s.adapters@[i].name@);
    }
}

/// In a well-formed listing, a device position with the sought
/// address is the position [`device_index`] names.
pub proof fn lemma_device_index_is(devs: Seq<DeviceInfo>, addr: Address, i: int)
    requires
        devices_wf(devs),
        0 <= i < devs.len(),
        same_address(devs[i].address, addr),
    ensures
        has_device(devs, addr),
        device_index(devs, addr) == i,
{
    assert(has_device(devs, addr));
    let j = device_index(devs, addr);
    if i < j {
        assert(!same_address(devs[i].address, devs[j].address));
    } else if j < i {
        assert(!same_address(devs[j].address, devs[i].address));
    }
}

/// What one command does to the device it addresses.  Every command
/// but `unpair` sets or clears one flag and keeps the rest of the
/// record; `unpair` is handled by [`devices_after`], which drops the
/// record.
pub open spec fn op_applied(d: DeviceInfo, op: DeviceOp) -> DeviceInfo {
    match op {
        DeviceOp::Pair => DeviceInfo { is_paired: true, ..d },
        DeviceOp::Unpair => d,
        DeviceOp::Connect => DeviceInfo { is_connected: true, ..d },
        DeviceOp::Disconnect => DeviceInfo { is_connected: false, ..d },
        DeviceOp::Trust => DeviceInfo { is_trusted: true, ..d },
        DeviceOp::Untrust => DeviceInfo { is_trusted: false, ..d },
        DeviceOp::Block => DeviceInfo { is_blocked: true, ..d },
        DeviceOp::Unblock => DeviceInfo { is_blocked: false, ..d },
    }
}

/// An adapter's devices after one command on the device at `di`:
/// `unpair` removes the record entirely, every other command updates
/// the one record in place.
pub open spec fn devices_after(devs: Seq<DeviceInfo>, di: int, op: DeviceOp) -> Seq<DeviceInfo> {
    if op == DeviceOp::Unpair {
        devs.remove(di)
    } else {
        devs.update(di, op_applied(devs[di], op))
    }
}

/// The whole effect of one accepted device command: the addressed
/// adapter's devices change as [`devices_after`] says, its name and
/// every other adapter stay as they were.
pub open spec fn command_applied(
    pre: BtState,
    post: BtState,
    name: Seq<char>,
    addr: Address,
    op: DeviceOp,
) -> bool {
    let ai = adapter_index(pre, name);
    let devs = pre.adapters@[ai].devices@;
    &&& has_adapter(pre, name)
    &&& has_device(devs, addr)
    &&& post.adapters@.len() == pre.adapters@.len()
    &&& forall|i: int|
        0 <= i < pre.adapters@.len() && i != ai ==> (#[trigger] post.adapters@[i])
            == pre.adapters@[i]
    &&& post.adapters@[ai].name == pre.adapters@[ai].name
    &&& post.adapters@[ai].devices@ == devices_after(devs, device_index(devs, addr), op)
}

/// The response to `GET /adapters`: status 200 with every adapter's
/// name, in the subsystem's order.
pub open spec fn names_listed(s: BtState, r: HttpResponse) -> bool {
    &&& r.status == 200
    &&& r.body matches ResponseBody::AdapterNames(ns) && ns.deep_view() == adapter_names(s)
}

/// The response to a streaming endpoint: the stream is opened when
/// the adapter exists, and `not found` is reported when it does not.
pub open spec fn stream_response(
    s: BtState,
    name: Seq<char>,
    kind: StreamKind,
    r: HttpResponse,
) -> bool {
    if has_adapter(s, name) {
        is_stream(r, kind)
    } else {
        is_not_found(r)
    }
}

/// The response to the device listing: when the adapter exists, the
/// listing carries exactly its devices, in order; otherwise
/// `not found`.
pub open spec fn listing_response(s: BtState, name: Seq<char>, r: HttpResponse) -> bool {
    if has_adapter(s, name) {
        &&& r.status == 200
        &&& r.body matches ResponseBody::DeviceList(ds) && ds@ == s.adapters@[adapter_index(
            s,
            name,
        )].devices@
    } else {
        is_not_found(r)
    }
}

/// The response to a device command, together with its effect on the
/// state: an unknown adapter or device leaves the state alone and
/// reports `not found`; otherwise the command is applied and the
/// fixed acknowledgment returned.
pub open spec fn command_response(
    pre: BtState,
    post: BtState,
    name: Seq<char>,
    addr: Address,
    op: DeviceOp,
    r: HttpResponse,
) -> bool {
    if !has_adapter(pre, name) {
        post == pre && is_not_found(r)
    } else if !has_device(pre.adapters@[adapter_index(pre, name)].devices@, addr) {
        post == pre && is_not_found(r)
    } else {
        command_applied(pre, post, name, addr, op) && is_ok_ack(r)
    }
}

/// Looks a named adapter up, as the adapter resolver does: the
/// position of the adapter with that name, or `None` when no adapter
/// carries it.
pub fn find_adapter(state: &BtState, name: &str) -> (r: Option<usize>)
    ensures
        r matches Some(i) ==> i < state.adapters@.len() && state.adapters@[i as int].name@
            == name@,
        r is None ==> !has_adapter(*state, name@),
{
    let mut i: usize = 0;
    while i < state.adapters.len()
        invariant
            i <= state.adapters@.len(),
            forall|k: int| 0 <= k < i ==> (#[trigger] state.adapters@[k]).name@ != name@,
        decreases state.adapters@.len() - i,
    {
        if crate::routes::str_eq(state.adapters[i].name.as_str(), name) {
            return Some(i);
        }
        i += 1;
    }
    None
}

/// Looks a device up by address, as the device resolver does: the
/// position of the device with that address, or `None` when the
/// adapter has never seen it.
pub fn find_device(devs: &Vec<DeviceInfo>, addr: &Address) -> (r: Option<usize>)
    ensures
        r matches Some(i) ==> i < devs@.len() && same_address(devs@[i as int].address, *addr),
        r is None ==> !has_device(devs@, *addr),
{
    let mut i: usize = 0;
    while i < devs.len()
        invariant
            i <= devs@.len(),
            forall|k: int| 0 <= k < i ==> !same_address((#[trigger] devs@[k]).address, *addr),
        decreases devs@.len() - i,
    {
        if devs[i].address.same_as(addr) {
            return Some(i);
        }
        i += 1;
    }
    None
}

/// The fixed `not found` reply.
fn not_found_reply() -> (r: HttpResponse)
    ensures
        is_not_found(r),
{
    proof {
        reveal_strlit("not found");
    }
    HttpResponse { status: 404, body: ResponseBody::Text("not found".to_owned()) }
}

/// The fixed `ok` acknowledgment.
fn ok_reply() -> (r: HttpResponse)
    ensures
        is_ok_ack(r),
{
    proof {
        reveal_strlit("ok");
    }
    HttpResponse { status: 200, body: ResponseBody::Text("ok".to_owned()) }
}

/// Serves one dispatched request against the modelled state: reads
/// for the listings and the streams, one exact update for each device
/// command, `not found` whenever the named adapter or device does not
/// exist.
pub fn handle(state: &mut BtState, req: Endpoint) -> (r: HttpResponse)
    requires
        state_wf(*old(state)),
    ensures
        state_wf(*final(state)),
        match req {
            Endpoint::Adapters => *final(state) == *old(state) && names_listed(*old(state), r),
            Endpoint::Events { name } => *final(state) == *old(state) && stream_response(
                *old(state),
                name@,
                StreamKind::Events,
                r,
            ),
            Endpoint::Discover { name } => *final(state) == *old(state) && stream_response(
                *old(state),
                name@,
                StreamKind::Discover,
                r,
            ),
            Endpoint::Devices { name } => *final(state) == *old(state) && listing_response(
                *old(state),
                name@,
                r,
            ),
            Endpoint::Device { name, addr, op } => command_response(
                *old(state),
                *final(state),
                name@,
                addr,
                op,
                r,
            ),
        },
{
    match req {
        Endpoint::Adapters => {
            let mut names: Vec<String> = Vec::new();
            let mut i: usize = 0;
            while i < state.adapters.len()
                invariant
                    i <= state.adapters@.len(),
                    names@.len() == i,
                    forall|k: int| 0 <= k < i ==> (#[trigger] names@[k])@ == state.adapters@[k].name@,
                decreases state.adapters@.len() - i,
            {
                names.push(state.adapters[i].name.clone());
                i += 1;
            }
            proof {
                assert(names.deep_view() =~= adapter_names(*state));
            }
            HttpResponse { status: 200, body: ResponseBody::AdapterNames(names) }
        },
        Endpoint::Events { name } => {
            match find_adapter(state, name.as_str()) {
                Some(_) => HttpResponse {
                    status: 200,
                    body: ResponseBody::Stream(StreamKind::Events),
                },
                None => not_found_reply(),
            }
        },
        Endpoint::Discover { name } => {
            match find_adapter(state, name.as_str()) {
                Some(_) => HttpResponse {
                    status: 200,
                    body: ResponseBody::Stream(StreamKind::Discover),
                },
                None => not_found_reply(),
            }
        },
        Endpoint::Devices { name } => {
            match find_adapter(state, name.as_str()) {
                Some(ai) => {
                    proof {
                        lemma_adapter_index_is(*state, name@, ai as int);
                    }
                    let list = clone_devices(&state.adapters[ai].devices);
                    HttpResponse { status: 200, body: ResponseBody::DeviceList(list) }
                },
                None => not_found_reply(),
            }
        },
        Endpoint::Device { name, addr, op } => {
            let ai = match find_adapter(state, name.as_str()) {
                Some(ai) => ai,
                None => {
                    return not_found_reply();
                },
            };
            proof {
                lemma_adapter_index_is(*state, name@, ai as int);
            }
            let di = match find_device(&state.adapters[ai].devices, &addr) {
                Some(di) => di,
                None => {
                    return not_found_reply();
                },
            };
            proof {
                lemma_device_index_is(state.adapters@[ai as int].devices@, addr, di as int);
            }
            match op {
                DeviceOp::Pair => {
                    state.adapters[ai].devices[di].is_paired = true;
                },
                DeviceOp::Unpair => {
                    state.adapters[ai].devices.remove(di);
                },
                DeviceOp::Connect => {
                    state.adapters[ai].devices[di].is_connected = true;
                },
                DeviceOp::Disconnect => {
                    state.adapters[ai].devices[di].is_connected = false;
                },
                DeviceOp::Trust => {
                    state.adapters[ai].devices[di].is_trusted = true;
                },
                DeviceOp::Untrust => {
                    state.adapters[ai].devices[di].is_trusted = false;
                },
                DeviceOp::Block => {
                    state.adapters[ai].devices[di].is_blocked = true;
                },
                DeviceOp::Unblock => {
                    state.adapters[ai].devices[di].is_blocked = false;
                },
            }
            ok_reply()
        },
    }
}

} // verus!
