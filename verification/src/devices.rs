//! Device records and the all-or-nothing assembly of a device listing.

use vstd::prelude::*;
use crate::address::Address;
use crate::error::AppError;

verus! {

/// Everything the service reports about one device: its address, the
/// optional display name, icon and signal strength, and the four
/// policy and connection flags.
#[derive(Debug)]
pub struct DeviceInfo {
    pub address: Address,
    pub name: Option<String>,
    pub icon: Option<String>,
    pub rssi: Option<i16>,
    pub is_connected: bool,
    pub is_paired: bool,
    pub is_trusted: bool,
    pub is_blocked: bool,
}

fn clone_opt_string(o: &Option<String>) -> (r: Option<String>)
    ensures
        r == *o,
{
    match o {
        Some(s) => Some(s.clone()),
        None => None,
    }
}

impl Clone for DeviceInfo {
    fn clone(&self) -> (r: Self)
        ensures
            r == *self,
    {
        DeviceInfo {
            address: self.address,
            name: clone_opt_string(&self.name),
            icon: clone_opt_string(&self.icon),
            rssi: self.rssi,
            is_connected: self.is_connected,
            is_paired: self.is_paired,
            is_trusted: self.is_trusted,
            is_blocked: self.is_blocked,
        }
    }
}

/// A copy of a whole device listing, element for element.
pub fn clone_devices(v: &Vec<DeviceInfo>) -> (r: Vec<DeviceInfo>)
    ensures
        r@ =~= v@,
{
    let mut out: Vec<DeviceInfo> = Vec::new();
    let mut i: usize = 0;
    while i < v.len()
        invariant
            i <= v.len(),
            out@.len() == i,
            forall|k: int| 0 <= k < i ==> out@[k] == v@[k],
        decreases v.len() - i,
    {
        out.push(v[i].clone());
        i += 1;
    }
    out
}

/// Collects the per-device fetch results of one listing.  The listing
/// succeeds only when every fetch succeeded, and then carries every
/// fetched record, in order; the first failure aborts the whole
/// listing and is returned as its error.
#[verifier::loop_isolation(false)]
pub fn build_listing(fetched: Vec<Result<DeviceInfo, AppError>>) -> (r: Result<
    Vec<DeviceInfo>,
    AppError,
>)
    ensures
        r is Ok <==> (forall|k: int| 0 <= k < fetched@.len() ==> fetched@[k] is Ok),
        r matches Ok(list) ==> {
            &&& list@.len() == fetched@.len()
            &&& forall|k: int| 0 <= k < fetched@.len() ==> list@[k] == fetched@[k]->Ok_0
        },
        r matches Err(e) ==> exists|k: int|
            {
                &&& 0 <= k < fetched@.len()
                &&& (#[trigger] fetched@[k]) matches Err(e2) && e == e2
                &&& forall|j: int| 0 <= j < k ==> fetched@[j] is Ok
            },
{
    let ghost orig = fetched@;
    let mut rest = fetched;
    let mut out: Vec<DeviceInfo> = Vec::new();
    while rest.len() > 0
        invariant
            out@.len() + rest@.len() == orig.len(),
            orig =~= orig.subrange(0, out@.len() as int) + rest@,
            forall|k: int| 0 <= k < out@.len() ==> (#[trigger] orig[k]) is Ok,
            forall|k: int| 0 <= k < out@.len() ==> (#[trigger] out@[k]) == orig[k]->Ok_0,
        decreases rest@.len(),
    {
        let ghost done = out@.len() as int;
        let item = rest.remove(0);
        proof {
            assert(orig[done] == item);
        }
        match item {
            Ok(d) => {
                out.push(d);
                proof {
                    assert(out@[done] == orig[done]->Ok_0);
                }
            },
            Err(e) => {
                proof {
                    assert(fetched@[done] matches Err(e2) && e == e2);
                    assert(forall|j: int| 0 <= j < done ==> (#[trigger] fetched@[j]) is Ok);
                }
                return Err(e);
            },
        }
        proof {
            assert(orig =~= orig.subrange(0, out@.len() as int) + rest@);
        }
    }
    proof {
        assert(forall|k: int| 0 <= k < fetched@.len() ==> (#[trigger] fetched@[k]) is Ok);
        assert(forall|k: int| 0 <= k < fetched@.len() ==> (#[trigger] out@[k]) == fetched@[k]->Ok_0);
    }
    Ok(out)
}

} // verus!
