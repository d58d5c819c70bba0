//! Laws the library guarantees, stated and proved over the parse and cache
//! models.

use vstd::prelude::*;

use crate::cache::{set_insert, DeviceDiscoveryCache};
use crate::device::{
    all_entries, entry_key, entry_value, last_attr, last_ip, last_port, last_ptr,
    key_ca, key_fn, key_ic, key_id, key_md, key_ve, parse_result, valid_entry, DeviceRecordModel,
    DnsRecord,
};

verus! {

/// Whether a record is an address record.
pub open spec fn is_address_record(r: DnsRecord) -> bool {
    r matches DnsRecord::Address { .. }
}

/// Whether a record is a service-location record.
pub open spec fn is_service_location_record(r: DnsRecord) -> bool {
    r matches DnsRecord::ServiceLocation { .. }
}

/// Whether some record of the sequence is an address record.
pub open spec fn has_address(rs: Seq<DnsRecord>) -> bool {
    exists|i: int| 0 <= i < rs.len() && is_address_record(#[trigger] rs[i])
}

/// Whether some record of the sequence is a service-location record.
pub open spec fn has_service_location(rs: Seq<DnsRecord>) -> bool {
    exists|i: int| 0 <= i < rs.len() && is_service_location_record(#[trigger] rs[i])
}

proof fn lemma_last_ip_found(rs: Seq<DnsRecord>)
    ensures
        last_ip(rs) is Some <==> has_address(rs),
    decreases rs.len(),
{
    if rs.len() > 0 {
        lemma_last_ip_found(rs.drop_last());
        if rs.last() matches DnsRecord::Address { .. } {
            assert(is_address_record(rs[rs.len() - 1]));
        } else {
            if has_address(rs.drop_last()) {
                let i = choose|i: int|
                    0 <= i < rs.drop_last().len() && is_address_record(#[trigger] rs.drop_last()[i]);
                assert(is_address_record(rs[i]));
            }
            if has_address(rs) {
                let i = choose|i: int| 0 <= i < rs.len() && is_address_record(#[trigger] rs[i]);
                assert(i < rs.len() - 1);
                assert(is_address_record(rs.drop_last()[i]));
            }
        }
    }
}

proof fn lemma_last_port_found(rs: Seq<DnsRecord>)
    ensures
        last_port(rs) is Some <==> has_service_location(rs),
    decreases rs.len(),
{
    if rs.len() > 0 {
        lemma_last_port_found(rs.drop_last());
        if rs.last() matches DnsRecord::ServiceLocation { .. } {
            assert(is_service_location_record(rs[rs.len() - 1]));
        } else {
            if has_service_location(rs.drop_last()) {
                let i = choose|i: int|
                    0 <= i < rs.drop_last().len() && is_service_location_record(
                        #[trigger] rs.drop_last()[i],
                    );
                assert(is_service_location_record(rs[i]));
            }
            if has_service_location(rs) {
                let i = choose|i: int|
                    0 <= i < rs.len() && is_service_location_record(#[trigger] rs[i]);
                assert(i < rs.len() - 1);
                assert(is_service_location_record(rs.drop_last()[i]));
            }
        }
    }
}

/// A record set lacking an address record, or lacking a service-location
/// record, parses to no device.
pub proof fn lemma_incomplete_advertisement_rejected(rs: Seq<DnsRecord>)
    requires
        !has_address(rs) || !has_service_location(rs),
    ensures
        parse_result(rs) is None,
{
    lemma_last_ip_found(rs);
    lemma_last_port_found(rs);
}

/// A record set carrying both an address and a service-location record
/// parses to a device whose every field holds the latest value seen:
/// the latest address and port, the latest pointer target, and per
/// recognized attribute key the value of the latest conforming entry.
pub proof fn lemma_complete_advertisement_parsed(rs: Seq<DnsRecord>)
    requires
        has_address(rs),
        has_service_location(rs),
    ensures
        parse_result(rs) matches Some(m) && m == (DeviceRecordModel {
            ptr: last_ptr(rs),
            ip_addr: last_ip(rs)->Some_0,
            port: last_port(rs)->Some_0,
            device_uuid: last_attr(all_entries(rs), key_id()),
            model: last_attr(all_entries(rs), key_md()),
            version: last_attr(all_entries(rs), key_ve()),
            icon_path: last_attr(all_entries(rs), key_ic()),
            certificate_authority: last_attr(all_entries(rs), key_ca()),
            friendly_name: last_attr(all_entries(rs), key_fn()),
        }),
{
    lemma_last_ip_found(rs);
    lemma_last_port_found(rs);
}

/// An attribute entry that does not split on `=` into exactly two parts
/// never affects any field: appending it leaves every key's value as it
/// was.
pub proof fn lemma_malformed_entry_skipped(es: Seq<Seq<char>>, e: Seq<char>, key: Seq<char>)
    requires
        !valid_entry(e),
    ensures
        last_attr(es.push(e), key) == last_attr(es, key),
{
    assert(es.push(e).drop_last() =~= es);
}

/// A conforming attribute entry with some other key leaves this key's value
/// as it was; in particular an unrecognized key affects no field.
pub proof fn lemma_other_key_skipped(es: Seq<Seq<char>>, e: Seq<char>, key: Seq<char>)
    requires
        entry_key(e) != key,
    ensures
        last_attr(es.push(e), key) == last_attr(es, key),
{
    assert(es.push(e).drop_last() =~= es);
}

/// A conforming attribute entry with this key overwrites whatever value the
/// key had: the last write wins.
pub proof fn lemma_last_write_wins(es: Seq<Seq<char>>, e: Seq<char>, key: Seq<char>)
    requires
        valid_entry(e),
        entry_key(e) == key,
    ensures
        last_attr(es.push(e), key) == Some(entry_value(e)),
{
}

/// Inserting a structurally identical device record twice is the same as
/// inserting it once: the second insertion leaves the set unchanged.
pub proof fn lemma_insert_idempotent(s: Seq<DeviceRecordModel>, m: DeviceRecordModel)
    ensures
        set_insert(set_insert(s, m), m) == set_insert(s, m),
{
    if !s.contains(m) {
        assert(s.push(m)[s.len() as int] == m);
        assert(s.push(m).contains(m));
    }
}

/// The poll lifecycle: a cache with no poll in flight reports one running
/// from the moment a poll is started until the moment it is finished, and
/// not after.
pub proof fn lemma_poll_lifecycle(c: DeviceDiscoveryCache, start_ms: u64, finish_ms: u64)
    requires
        !c.running(),
        start_ms > c.poll_finish_time,
        finish_ms >= start_ms,
    ensures
        ({
            let polling = DeviceDiscoveryCache { poll_start_time: start_ms, ..c };
            let idle = DeviceDiscoveryCache {
                poll_finish_time: finish_ms,
                ..(DeviceDiscoveryCache { poll_start_time: start_ms, ..c })
            };
            polling.running() && !idle.running()
        }),
{
}

} // verus!
