//! Parsing advertisement records into validated device descriptions.
//!
//! One discovery response carries an ordered sequence of typed records. The
//! parser scans them once, keeps the latest value seen for each field
//! (last-write-wins within one response), and yields a device description
//! only when both an address and a service-location port were present.
//! Attribute-list entries are `key=value` strings; entries that do not split
//! on `=` into exactly two parts are skipped, and unrecognized keys are
//! ignored.

use vstd::prelude::*;

use crate::ip::{ip_text, IpAddress};

verus! {

/// One typed record of a discovery response, as plain values.
#[derive(Debug)]
pub enum DnsRecord {
    /// An address record (IPv4 or IPv6).
    Address { addr: IpAddress },
    /// A service-location record; only the port is relevant here.
    ServiceLocation { port: u16 },
    /// A pointer record carrying a service path.
    Pointer { target: String },
    /// An attribute-list record carrying `key=value` entries.
    Attributes { entries: Vec<String> },
    /// Any record kind the parser does not read.
    Other,
}

/// Why a response yielded no device.
#[derive(Clone, Copy, Debug, PartialEq, Eq, Structural)]
pub enum ParseError {
    /// No address record was found.
    NoAddress,
    /// No service-location record was found.
    NoServiceLocation,
}

/// Device details obtained from one parsed advertisement. All fields except
/// the address and the port are optional: absent when the advertisement
/// omitted them.
#[derive(Debug)]
pub struct DeviceRecord {
    /// Advertised service path of the device.
    pub ptr: Option<String>,
    /// IPv4/IPv6 address of the device.
    pub ip_addr: IpAddress,
    /// Port on which the service is running.
    pub port: u16,
    /// Opaque identifier of the device.
    pub device_uuid: Option<String>,
    /// Human-readable model of the device.
    pub model: Option<String>,
    /// Protocol version string.
    pub version: Option<String>,
    /// Relative URL path to an icon.
    pub icon_path: Option<String>,
    /// Certificate-authority identifier.
    pub certificate_authority: Option<String>,
    /// Friendly name assigned by the device owner.
    pub friendly_name: Option<String>,
}

/// The mathematical value of a [`DeviceRecord`]: every string as its
/// character sequence.
pub struct DeviceRecordModel {
    pub ptr: Option<Seq<char>>,
    pub ip_addr: IpAddress,
    pub port: u16,
    pub device_uuid: Option<Seq<char>>,
    pub model: Option<Seq<char>>,
    pub version: Option<Seq<char>>,
    pub icon_path: Option<Seq<char>>,
    pub certificate_authority: Option<Seq<char>>,
    pub friendly_name: Option<Seq<char>>,
}

/// The character-sequence value of an optional string.
pub open spec fn opt_seq(o: Option<String>) -> Option<Seq<char>> {
    match o {
        Some(s) => Some(s@),
        None => None,
    }
}

impl View for DeviceRecord {
    type V = DeviceRecordModel;

    open spec fn view(&self) -> DeviceRecordModel {
        DeviceRecordModel {
            ptr: opt_seq(self.ptr),
            ip_addr: self.ip_addr,
            port: self.port,
            device_uuid: opt_seq(self.device_uuid),
            model: opt_seq(self.model),
            version: opt_seq(self.version),
            icon_path: opt_seq(self.icon_path),
            certificate_authority: opt_seq(self.certificate_authority),
            friendly_name: opt_seq(self.friendly_name),
        }
    }
}

/// The latest address carried by the records, if any.
pub open spec fn last_ip(rs: Seq<DnsRecord>) -> Option<IpAddress>
    decreases rs.len(),
{
    if rs.len() == 0 {
        None
    } else {
        match rs.last() {
            DnsRecord::Address { addr } => Some(addr),
            _ => last_ip(rs.drop_last()),
        }
    }
}

/// The latest service-location port carried by the records, if any.
pub open spec fn last_port(rs: Seq<DnsRecord>) -> Option<u16>
    decreases rs.len(),
{
    if rs.len() == 0 {
        None
    } else {
        match rs.last() {
            DnsRecord::ServiceLocation { port } => Some(port),
            _ => last_port(rs.drop_last()),
        }
    }
}

/// The latest pointer target carried by the records, if any.
pub open spec fn last_ptr(rs: Seq<DnsRecord>) -> Option<Seq<char>>
    decreases rs.len(),
{
    if rs.len() == 0 {
        None
    } else {
        match rs.last() {
            DnsRecord::Pointer { target } => Some(target@),
            _ => last_ptr(rs.drop_last()),
        }
    }
}

/// The attribute entries one record contributes, in order.
pub open spec fn record_entries(r: DnsRecord) -> Seq<Seq<char>> {
    match r {
        DnsRecord::Attributes { entries } => entries@.map_values(|s: String| s@),
        _ => Seq::empty(),
    }
}

/// All attribute entries of the records, concatenated in record order.
pub open spec fn all_entries(rs: Seq<DnsRecord>) -> Seq<Seq<char>>
    decreases rs.len(),
{
    if rs.len() == 0 {
        Seq::empty()
    } else {
        all_entries(rs.drop_last()) + record_entries(rs.last())
    }
}

/// How many `=` characters an entry holds.
pub open spec fn eq_count(e: Seq<char>) -> nat
    decreases e.len(),
{
    if e.len() == 0 {
        0
    } else {
        eq_count(e.drop_last()) + (if e.last() == '=' {
            1nat
        } else {
            0nat
        })
    }
}

/// The position of the first `=` at or after `i`, or the length when there
/// is none.
pub open spec fn first_eq_from(e: Seq<char>, i: int) -> int
    decreases e.len() - i,
{
    if i < 0 || i >= e.len() {
        e.len() as int
    } else if e[i] == '=' {
        i
    } else {
        first_eq_from(e, i + 1)
    }
}

/// An entry conforms when it splits on `=` into exactly two parts, that is,
/// when it holds exactly one `=`.
pub open spec fn valid_entry(e: Seq<char>) -> bool {
    eq_count(e) == 1
}

/// The part of an entry before its first `=`.
pub open spec fn entry_key(e: Seq<char>) -> Seq<char> {
    e.subrange(0, first_eq_from(e, 0))
}

/// The part of an entry after its first `=`.
pub open spec fn entry_value(e: Seq<char>) -> Seq<char>
    recommends
        valid_entry(e),
{
    e.subrange(first_eq_from(e, 0) + 1, e.len() as int)
}

/// The value of the latest conforming entry with the given key, if any.
pub open spec fn last_attr(es: Seq<Seq<char>>, key: Seq<char>) -> Option<Seq<char>>
    decreases es.len(),
{
    if es.len() == 0 {
        None
    } else if valid_entry(es.last()) && entry_key(es.last()) == key {
        Some(entry_value(es.last()))
    } else {
        last_attr(es.drop_last(), key)
    }
}

/// The attribute key of the certificate-authority field.
pub open spec fn key_ca() -> Seq<char> {
    seq!['c', 'a']
}

/// The attribute key of the friendly-name field.
pub open spec fn key_fn() -> Seq<char> {
    seq!['f', 'n']
}

/// The attribute key of the icon-path field.
pub open spec fn key_ic() -> Seq<char> {
    seq!['i', 'c']
}

/// The attribute key of the device-identifier field.
pub open spec fn key_id() -> Seq<char> {
    seq!['i', 'd']
}

/// The attribute key of the model field.
pub open spec fn key_md() -> Seq<char> {
    seq!['m', 'd']
}

/// The attribute key of the protocol-version field.
pub open spec fn key_ve() -> Seq<char> {
    seq!['v', 'e']
}

/// What parsing one response's records yields: a device exactly when both an
/// address and a port were found, each field holding the latest value seen.
pub open spec fn parse_result(rs: Seq<DnsRecord>) -> Option<DeviceRecordModel> {
    match (last_ip(rs), last_port(rs)) {
        (Some(ip), Some(p)) => Some(
            DeviceRecordModel {
                ptr: last_ptr(rs),
                ip_addr: ip,
                port: p,
                device_uuid: last_attr(all_entries(rs), key_id()),
                model: last_attr(all_entries(rs), key_md()),
                version: last_attr(all_entries(rs), key_ve()),
                icon_path: last_attr(all_entries(rs), key_ic()),
                certificate_authority: last_attr(all_entries(rs), key_ca()),
                friendly_name: last_attr(all_entries(rs), key_fn()),
            },
        ),
        _ => None,
    }
}

proof fn lemma_first_eq_from(e: Seq<char>, i: int, j: int)
    requires
        0 <= i <= j < e.len(),
        e[j] == '=',
        forall|t: int| i <= t < j ==> e[t] != '=',
    ensures
        first_eq_from(e, i) == j,
    decreases j - i,
{
    if i < j {
        lemma_first_eq_from(e, i + 1, j);
    }
}

impl DeviceRecord {
    /// Parses the records of one response, reporting which required field
    /// was missing when no device can be built.
    pub fn parse_response(records: &Vec<DnsRecord>) -> (r: Result<DeviceRecord, ParseError>)
        ensures
            r matches Ok(d) ==> parse_result(records@) == Some(d@),
            r matches Err(e) ==> parse_result(records@) is None,
            r matches Err(e) ==> (e == ParseError::NoAddress <==> last_ip(records@) is None),
            r matches Err(e) ==> (e == ParseError::NoServiceLocation <==> last_ip(records@) is Some
                && last_port(records@) is None),
    {
        let mut ptr: Option<String> = None;
        let mut ip_addr: Option<IpAddress> = None;
        let mut port: Option<u16> = None;
        let mut device_uuid: Option<String> = None;
        let mut model: Option<String> = None;
        let mut version: Option<String> = None;
        let mut icon_path: Option<String> = None;
        let mut certificate_authority: Option<String> = None;
        let mut friendly_name: Option<String> = None;
        let ghost mut done: Seq<Seq<char>> = Seq::empty();

        let n = records.len();
        let mut i: usize = 0;
        while i < n
            invariant
                i <= n,
                n == records@.len(),
                opt_seq(ptr) == last_ptr(records@.take(i as int)),
                ip_addr == last_ip(records@.take(i as int)),
                port == last_port(records@.take(i as int)),
                done == all_entries(records@.take(i as int)),
                opt_seq(certificate_authority) == last_attr(done, key_ca()),
                opt_seq(friendly_name) == last_attr(done, key_fn()),
                opt_seq(icon_path) == last_attr(done, key_ic()),
                opt_seq(device_uuid) == last_attr(done, key_id()),
                opt_seq(model) == last_attr(done, key_md()),
                opt_seq(version) == last_attr(done, key_ve()),
            decreases n - i,
        {
            let r = &records[i];
            match r {
                DnsRecord::Address { addr } => {
                    ip_addr = Some(*addr);
                },
                DnsRecord::ServiceLocation { port: p } => {
                    port = Some(*p);
                },
                DnsRecord::Pointer { target } => {
                    ptr = Some(target.clone());
                },
                DnsRecord::Attributes { entries } => {
                    let ghost ev: Seq<Seq<char>> = entries@.map_values(|s: String| s@);
                    let m = entries.len();
                    let mut j: usize = 0;
                    while j < m
                        invariant
                            j <= m,
                            m == entries@.len(),
                            ev == entries@.map_values(|s: String| s@),
                            done == all_entries(records@.take(i as int)) + ev.take(j as int),
                            opt_seq(certificate_authority) == last_attr(done, key_ca()),
                            opt_seq(friendly_name) == last_attr(done, key_fn()),
                            opt_seq(icon_path) == last_attr(done, key_ic()),
                            opt_seq(device_uuid) == last_attr(done, key_id()),
                            opt_seq(model) == last_attr(done, key_md()),
                            opt_seq(version) == last_attr(done, key_ve()),
                        decreases m - j,
                    {
                        let entry = &entries[j];
                        let e_len = entry.as_str().unicode_len();
                        let mut k: usize = 0;
                        let mut eqc: usize = 0;
                        let mut eqi: usize = 0;
                        while k < e_len
                            invariant
                                k <= e_len,
                                e_len == entry@.len(),
                                eqc <= k,
                                eqc as nat == eq_count(entry@.take(k as int)),
                                eqc > 0 ==> (eqi < k && entry@[eqi as int] == '=' && forall|t: int|
                                    0 <= t < eqi ==> entry@[t] != '='),
                                eqc == 0 ==> forall|t: int| 0 <= t < k ==> entry@[t] != '=',
                            decreases e_len - k,
                        {
                            let c = entry.as_str().get_char(k);
                            proof {
                                assert(entry@.take(k as int + 1).drop_last() =~= entry@.take(
                                    k as int,
                                ));
                                assert(entry@.take(k as int + 1).last() == entry@[k as int]);
                            }
                            if c == '=' {
                                if eqc == 0 {
                                    eqi = k;
                                }
                                eqc = eqc + 1;
                            }
                            k = k + 1;
                        }
                        proof {
                            assert(entry@.take(e_len as int) =~= entry@);
                        }
                        if eqc == 1 {
                            proof {
                                lemma_first_eq_from(entry@, 0, eqi as int);
                            }
                            let value = entry.as_str().substring_char(eqi + 1, e_len);
                            let val: Option<String> = Some(String::from_str(value));
                            proof {
                                assert(opt_seq(val) == Some(entry_value(entry@)));
                            }
                            if eqi == 2 {
                                let c0 = entry.as_str().get_char(0);
                                let c1 = entry.as_str().get_char(1);
                                proof {
                                    assert(entry_key(entry@) =~= seq![c0, c1]);
                                }
                                if c0 == 'c' && c1 == 'a' {
                                    certificate_authority = val;
                                } else if c0 == 'f' && c1 == 'n' {
                                    friendly_name = val;
                                } else if c0 == 'i' && c1 == 'c' {
                                    icon_path = val;
                                } else if c0 == 'i' && c1 == 'd' {
                                    device_uuid = val;
                                } else if c0 == 'm' && c1 == 'd' {
                                    model = val;
                                } else if c0 == 'v' && c1 == 'e' {
                                    version = val;
                                }
                            } else {
                                proof {
                                    assert(entry_key(entry@).len() == eqi as int);
                                    assert(entry_key(entry@) != key_ca());
                                    assert(entry_key(entry@) != key_fn());
                                    assert(entry_key(entry@) != key_ic());
                                    assert(entry_key(entry@) != key_id());
                                    assert(entry_key(entry@) != key_md());
                                    assert(entry_key(entry@) != key_ve());
                                }
                            }
                        }
                        proof {
                            assert(done.push(entry@).drop_last() =~= done);
                            assert(done.push(entry@).last() == entry@);
                            done = done.push(entry@);
                            assert(ev[j as int] == entry@);
                            assert(ev.take(j as int).push(ev[j as int]) =~= ev.take(j as int + 1));
                            assert(all_entries(records@.take(i as int)) + ev.take(j as int + 1)
                                =~= (all_entries(records@.take(i as int)) + ev.take(
                                j as int,
                            )).push(entry@));
                        }
                        j = j + 1;
                    }
                    proof {
                        assert(ev.take(m as int) =~= ev);
                    }
                },
                DnsRecord::Other => {},
            }
            proof {
                let pre = records@.take(i as int);
                let post = records@.take(i as int + 1);
                assert(post.drop_last() =~= pre);
                assert(post.last() == records@[i as int]);
                assert(all_entries(post) == all_entries(pre) + record_entries(records@[i as int]));
                if !(records@[i as int] matches DnsRecord::Attributes { .. }) {
                    assert(all_entries(pre) + record_entries(records@[i as int]) =~= all_entries(
                        pre,
                    ));
                }
            }
            i = i + 1;
        }
        proof {
            assert(records@.take(n as int) =~= records@);
        }
        if let Some(ip) = ip_addr {
            if let Some(p) = port {
                Ok(
                    DeviceRecord {
                        ptr,
                        ip_addr: ip,
                        port: p,
                        device_uuid,
                        model,
                        version,
                        icon_path,
                        certificate_authority,
                        friendly_name,
                    },
                )
            } else {
                Err(ParseError::NoServiceLocation)
            }
        } else {
            Err(ParseError::NoAddress)
        }
    }

    /// Constructs a [`DeviceRecord`] from the records of one discovery
    /// response, or nothing when the response lacked an address or a port.
    pub fn from_mdns(records: &Vec<DnsRecord>) -> (r: Option<DeviceRecord>)
        ensures
            r matches Some(d) ==> parse_result(records@) == Some(d@),
            r is None <==> parse_result(records@) is None,
    {
        match Self::parse_response(records) {
            Ok(d) => Some(d),
            Err(_) => None,
        }
    }

    /// User-friendly display name: the friendly name, or `Unnamed`, followed
    /// by the address in parentheses.
    pub fn display_name(&self) -> (r: String)
        ensures
            r@ == display_name_seq(self@),
    {
        let mut s: String = match &self.friendly_name {
            Some(name) => name.clone(),
            None => String::from_str("Unnamed"),
        };
        s.append(" (");
        s.append(self.ip_addr.to_text().as_str());
        s.append(")");
        proof {
            assert(s@ =~= display_name_seq(self@));
        }
        s
    }
}

/// Equality of optional strings, by their character sequences.
fn opt_str_eq(a: &Option<String>, b: &Option<String>) -> (r: bool)
    ensures
        r == (opt_seq(*a) == opt_seq(*b)),
{
    match (a, b) {
        (None, None) => true,
        (Some(x), Some(y)) => x.eq(y),
        _ => false,
    }
}

/// A copy of an optional string with the same character sequence.
fn clone_opt(o: &Option<String>) -> (r: Option<String>)
    ensures
        opt_seq(r) == opt_seq(*o),
{
    match o {
        None => None,
        Some(s) => Some(s.clone()),
    }
}

impl PartialEq for DeviceRecord {
    /// Structural equality: two records are equal iff all fields are equal.
    fn eq(&self, other: &Self) -> (r: bool) {
        opt_str_eq(&self.ptr, &other.ptr) && self.ip_addr == other.ip_addr && self.port
            == other.port && opt_str_eq(&self.device_uuid, &other.device_uuid) && opt_str_eq(
            &self.model,
            &other.model,
        ) && opt_str_eq(&self.version, &other.version) && opt_str_eq(
            &self.icon_path,
            &other.icon_path,
        ) && opt_str_eq(&self.certificate_authority, &other.certificate_authority) && opt_str_eq(
            &self.friendly_name,
            &other.friendly_name,
        )
    }
}

impl vstd::std_specs::cmp::PartialEqSpecImpl for DeviceRecord {
    open spec fn obeys_eq_spec() -> bool {
        true
    }

    open spec fn eq_spec(&self, other: &Self) -> bool {
        self@ == other@
    }
}

impl Clone for DeviceRecord {
    /// A structural copy: the clone's value equals the original's.
    fn clone(&self) -> (r: Self)
        ensures
            r@ == self@,
    {
        DeviceRecord {
            ptr: clone_opt(&self.ptr),
            ip_addr: self.ip_addr,
            port: self.port,
            device_uuid: clone_opt(&self.device_uuid),
            model: clone_opt(&self.model),
            version: clone_opt(&self.version),
            icon_path: clone_opt(&self.icon_path),
            certificate_authority: clone_opt(&self.certificate_authority),
            friendly_name: clone_opt(&self.friendly_name),
        }
    }
}

/// The display name a device record shows: its friendly name, or `Unnamed`,
/// followed by its address in parentheses.
pub open spec fn display_name_seq(r: DeviceRecordModel) -> Seq<char> {
    (match r.friendly_name {
        Some(s) => s,
        None => "Unnamed"@,
    }) + " ("@ + ip_text(r.ip_addr) + ")"@
}

} // verus!
