//! The tables of devices and clients (`slab::Slab`): each has a number while it is in its table.

use slab::Slab;
use tokio::sync::mpsc::Sender;
use vstd::prelude::*;

use crate::server::Device;
use crate::update::Update;

verus! {

/// A client: the queue of its updates and its address.
pub type Client = (Sender<Update>, String);

/// A table that gives a number to each value (`slab::Slab`).
#[verifier::external_type_specification]
#[verifier::external_body]
#[verifier::reject_recursive_types(T)]
pub struct ExSlab<T>(slab::Slab<T>);

/// The devices that a table holds, by number.
pub uninterp spec fn device_slots(devices: Slab<Device>) -> Map<usize, Device>;

/// The number that the next device gets.
pub uninterp spec fn device_vacancy(devices: Slab<Device>) -> usize;

/// The clients that a table holds, by number.
pub uninterp spec fn client_slots(clients: Slab<(Sender<Update>, String)>) -> Map<
    usize,
    (Sender<Update>, String),
>;

/// `Slab::new`: a table without devices.
#[verifier::external_body]
pub(crate) fn no_devices() -> (devices: Slab<Device>)
    ensures
        device_slots(devices).dom() == Set::<usize>::empty(),
{
    Slab::new()
}

/// `Slab::vacant_key`: the number that the next device gets. It is free.
#[verifier::external_body]
pub(crate) fn vacant_device(devices: &Slab<Device>) -> (id: usize)
    ensures
        id == device_vacancy(*devices),
        !device_slots(*devices).contains_key(id),
{
    devices.vacant_key()
}

/// `Slab::insert`: adds a device under the number that is next.
#[verifier::external_body]
pub(crate) fn insert_device(devices: &mut Slab<Device>, device: Device) -> (id: usize)
    ensures
        id == device_vacancy(*old(devices)),
        !device_slots(*old(devices)).contains_key(id),
        device_slots(*final(devices)) == device_slots(*old(devices)).insert(id, device),
{
    devices.insert(device)
}

/// `Slab::get`: the device with a number.
#[verifier::external_body]
pub(crate) fn get_device(devices: &Slab<Device>, id: usize) -> (found: Option<&Device>)
    ensures
        match found {
            Some(device) => device_slots(*devices).contains_key(id) && device_slots(*devices)[id]
                == *device,
            None => !device_slots(*devices).contains_key(id),
        },
{
    devices.get(id)
}

/// `Slab::try_remove`: takes out the device with a number. That number is the next to be given.
#[verifier::external_body]
pub(crate) fn remove_device(devices: &mut Slab<Device>, id: usize) -> (removed: Option<Device>)
    ensures
        device_slots(*final(devices)) == device_slots(*old(devices)).remove(id),
        match removed {
            Some(device) => device_slots(*old(devices)).contains_key(id) && device_slots(
                *old(devices),
            )[id] == device && device_vacancy(*final(devices)) == id,
            None => !device_slots(*old(devices)).contains_key(id) && device_vacancy(*final(devices))
                == device_vacancy(*old(devices)),
        },
{
    devices.try_remove(id)
}

/// `Slab::iter`: the numbers of all devices, in ascending order.
#[verifier::external_body]
pub(crate) fn device_ids(devices: &Slab<Device>) -> (ids: Vec<usize>)
    ensures
        crate::devices::ascending(ids@),
        ids@.to_set() == device_slots(*devices).dom(),
{
    devices.iter().map(|(id, _)| id).collect()
}

/// `Slab::new`: a table without clients.
#[verifier::external_body]
pub(crate) fn no_clients() -> (clients: Slab<(Sender<Update>, String)>)
    ensures
        client_slots(clients).dom() == Set::<usize>::empty(),
{
    Slab::new()
}

/// `Slab::insert`: adds a client under a number that was free. The table keeps its entries in a
/// vector, whose length fits in `isize`, so there is a number above.
#[verifier::external_body]
pub(crate) fn insert_client(
    clients: &mut Slab<(Sender<Update>, String)>,
    client: (Sender<Update>, String),
) -> (key: usize)
    ensures
        key < usize::MAX,
        !client_slots(*old(clients)).contains_key(key),
        client_slots(*final(clients)) == client_slots(*old(clients)).insert(key, client),
{
    clients.insert(client)
}

/// `Slab::get`: the client with a number.
#[verifier::external_body]
pub(crate) fn get_client(
    clients: &Slab<(Sender<Update>, String)>,
    key: usize,
) -> (found: Option<&(Sender<Update>, String)>)
    ensures
        match found {
            Some(client) => client_slots(*clients).contains_key(key) && client_slots(*clients)[key]
                == *client,
            None => !client_slots(*clients).contains_key(key),
        },
{
    clients.get(key)
}

/// `Slab::try_remove`: takes out the client with a number.
#[verifier::external_body]
pub(crate) fn take_client(
    clients: &mut Slab<(Sender<Update>, String)>,
    key: usize,
) -> (removed: Option<(Sender<Update>, String)>)
    ensures
        client_slots(*final(clients)) == client_slots(*old(clients)).remove(key),
        match removed {
            Some(client) => client_slots(*old(clients)).contains_key(key) && client_slots(
                *old(clients),
            )[key] == client,
            None => !client_slots(*old(clients)).contains_key(key),
        },
{
    clients.try_remove(key)
}

/// `Slab::iter`: the numbers of all clients, in ascending order. The table keeps its entries in a
/// vector, whose length fits in `isize`, so there is a number above each.
#[verifier::external_body]
pub(crate) fn client_keys(clients: &Slab<(Sender<Update>, String)>) -> (keys: Vec<usize>)
    ensures
        crate::devices::ascending(keys@),
        keys@.to_set() == client_slots(*clients).dom(),
        forall|at: int| 0 <= at < keys@.len() ==> #[trigger] keys@[at] < usize::MAX,
{
    clients.iter().map(|(key, _)| key).collect()
}

} // verus!
