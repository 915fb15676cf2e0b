//! The service's laws, each proved over the response and transition
//! predicates that [`crate::service::handle`] is specified by.

use vstd::prelude::*;
use crate::address::Address;
use crate::response::{HttpResponse, ResponseBody, StreamKind, is_not_found, is_stream};
use crate::routes::DeviceOp;
use crate::service::{
    adapter_index,
    adapter_names,
    command_applied,
    command_response,
    device_index,
    devices_wf,
    has_adapter,
    has_device,
    listing_response,
    names_listed,
    same_address,
    state_wf,
    stream_response,
    BtState,
};

verus! {

/// The trusted flag of the device `addr` names, on the adapter
/// `name` names.
pub open spec fn device_trusted(s: BtState, name: Seq<char>, addr: Address) -> bool {
    let devs = s.adapters@[adapter_index(s, name)].devices@;
    devs[device_index(devs, addr)].is_trusted
}

/// Every adapter's name stands in the `GET /adapters` listing, at
/// its own position.
pub proof fn lemma_adapters_lists_every_name(s: BtState, r: HttpResponse, i: int)
    requires
        names_listed(s, r),
        0 <= i < s.adapters@.len(),
    ensures
        r.body matches ResponseBody::AdapterNames(ns) && exists|j: int|
            0 <= j < ns.deep_view().len() && ns.deep_view()[j] == s.adapters@[i].name@,
{
    let ns = r.body->AdapterNames_0;
    assert(ns.deep_view()[i] == adapter_names(s)[i]);
}

/// An unknown adapter name gets `not found` from a streaming
/// endpoint.
pub proof fn lemma_unknown_adapter_stream(
    s: BtState,
    name: Seq<char>,
    kind: StreamKind,
    r: HttpResponse,
)
    requires
        !has_adapter(s, name),
        stream_response(s, name, kind, r),
    ensures
        is_not_found(r),
{
}

/// An unknown adapter name gets `not found` from the device listing.
pub proof fn lemma_unknown_adapter_listing(s: BtState, name: Seq<char>, r: HttpResponse)
    requires
        !has_adapter(s, name),
        listing_response(s, name, r),
    ensures
        is_not_found(r),
{
}

/// An unknown adapter name gets `not found` from every device
/// command, and the state is left alone.
pub proof fn lemma_unknown_adapter_command(
    pre: BtState,
    post: BtState,
    name: Seq<char>,
    addr: Address,
    op: DeviceOp,
    r: HttpResponse,
)
    requires
        !has_adapter(pre, name),
        command_response(pre, post, name, addr, op, r),
    ensures
        is_not_found(r),
        post == pre,
{
}

/// An unknown device address on a known adapter gets `not found`
/// from every device command, and the state is left alone.
pub proof fn lemma_unknown_device_command(
    pre: BtState,
    post: BtState,
    name: Seq<char>,
    addr: Address,
    op: DeviceOp,
    r: HttpResponse,
)
    requires
        has_adapter(pre, name),
        !has_device(pre.adapters@[adapter_index(pre, name)].devices@, addr),
        command_response(pre, post, name, addr, op, r),
    ensures
        is_not_found(r),
        post == pre,
{
}

/// The device listing of a known adapter carries exactly that
/// adapter's devices: one entry per known address, in the
/// subsystem's order, with no duplicate addresses.
pub proof fn lemma_listing_exact(s: BtState, name: Seq<char>, r: HttpResponse)
    requires
        state_wf(s),
        has_adapter(s, name),
        listing_response(s, name, r),
    ensures
        r.body matches ResponseBody::DeviceList(ds) && {
            let devs = s.adapters@[adapter_index(s, name)].devices@;
            &&& ds@ == devs
            &&& devices_wf(ds@)
            &&& forall|k: int|
                0 <= k < devs.len() ==> has_device(ds@, (#[trigger] devs[k]).address)
        },
{
    let ai = adapter_index(s, name);
    assert(0 <= ai < s.adapters@.len() && s.adapters@[ai].name@ == name);
    let devs = s.adapters@[ai].devices@;
    assert(devices_wf(devs));
    assert forall|k: int| 0 <= k < devs.len() implies has_device(
        devs,
        (#[trigger] devs[k]).address,
    ) by {
        assert(same_address(devs[k].address, devs[k].address));
    }
}

/// On a streaming endpoint, a known adapter always gets its stream
/// opened: discovery records or adapter events, newline-delimited,
/// zero or more of them until the client goes away.
pub proof fn lemma_known_adapter_streams(
    s: BtState,
    name: Seq<char>,
    kind: StreamKind,
    r: HttpResponse,
)
    requires
        has_adapter(s, name),
        stream_response(s, name, kind, r),
    ensures
        is_stream(r, kind),
{
}

/// Trusting a device twice leaves the trusted flag set both times.
pub proof fn lemma_trust_idempotent(
    pre: BtState,
    mid: BtState,
    post: BtState,
    name: Seq<char>,
    addr: Address,
    r1: HttpResponse,
    r2: HttpResponse,
)
    requires
        state_wf(pre),
        state_wf(mid),
        has_adapter(pre, name),
        has_device(pre.adapters@[adapter_index(pre, name)].devices@, addr),
        command_response(pre, mid, name, addr, DeviceOp::Trust, r1),
        command_response(mid, post, name, addr, DeviceOp::Trust, r2),
    ensures
        device_trusted(mid, name, addr),
        device_trusted(post, name, addr),
{
    lemma_command_keeps_place(pre, mid, name, addr, DeviceOp::Trust);
    lemma_command_keeps_place(mid, post, name, addr, DeviceOp::Trust);
}

/// Untrusting after trusting clears the trusted flag.
pub proof fn lemma_untrust_clears(
    pre: BtState,
    mid: BtState,
    post: BtState,
    name: Seq<char>,
    addr: Address,
    r1: HttpResponse,
    r2: HttpResponse,
)
    requires
        state_wf(pre),
        state_wf(mid),
        has_adapter(pre, name),
        has_device(pre.adapters@[adapter_index(pre, name)].devices@, addr),
        command_response(pre, mid, name, addr, DeviceOp::Trust, r1),
        command_response(mid, post, name, addr, DeviceOp::Untrust, r2),
    ensures
        device_trusted(mid, name, addr),
        !device_trusted(post, name, addr),
{
    lemma_command_keeps_place(pre, mid, name, addr, DeviceOp::Trust);
    lemma_command_keeps_place(mid, post, name, addr, DeviceOp::Untrust);
}

/// After any flag command, the adapter keeps its name and position,
/// the device keeps its address and position, and the flag stands as
/// the command set it.
pub proof fn lemma_command_keeps_place(
    pre: BtState,
    post: BtState,
    name: Seq<char>,
    addr: Address,
    op: DeviceOp,
)
    requires
        state_wf(pre),
        state_wf(post),
        op != DeviceOp::Unpair,
        has_adapter(pre, name),
        has_device(pre.adapters@[adapter_index(pre, name)].devices@, addr),
        command_applied(pre, post, name, addr, op),
    ensures
        has_adapter(post, name),
        adapter_index(post, name) == adapter_index(pre, name),
        has_device(post.adapters@[adapter_index(post, name)].devices@, addr),
        device_index(post.adapters@[adapter_index(post, name)].devices@, addr) == device_index(
            pre.adapters@[adapter_index(pre, name)].devices@,
            addr,
        ),
        post.adapters@[adapter_index(post, name)].devices@[device_index(
            post.adapters@[adapter_index(post, name)].devices@,
            addr,
        )] == crate::service::op_applied(
            pre.adapters@[adapter_index(pre, name)].devices@[device_index(
                pre.adapters@[adapter_index(pre, name)].devices@,
                addr,
            )],
            op,
        ),
{
    let ai = adapter_index(pre, name);
    assert(0 <= ai < pre.adapters@.len() && pre.adapters@[ai].name@ == name);
    let devs = pre.adapters@[ai].devices@;
    let di = device_index(devs, addr);
    assert(0 <= di < devs.len() && same_address(devs[di].address, addr));
    assert(post.adapters@[ai].name@ == name);
    crate::service::lemma_adapter_index_is(post, name, ai);
    let devs2 = post.adapters@[ai].devices@;
    assert(devs2 == devs.update(di, crate::service::op_applied(devs[di], op)));
    assert(same_address(devs2[di].address, addr));
    crate::service::lemma_device_index_is(devs2, addr, di);
}

} // verus!
