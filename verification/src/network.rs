//! Interface directory and address/route programming.
//!
//! The network subsystem hands the driver raw link and address records;
//! the library turns them into the index/name directory, resolves names to
//! indices, and builds the exact requests (address assignment, link state,
//! route installation) the driver then submits. Every interface the system
//! programs is first resolved to an index here: requests carry indices,
//! never names.

use vstd::prelude::*;

use crate::addr::convert_ipv4_to_string;
use crate::addr::convert_ipv6_to_string;
use crate::addr::get_ip_type;
use crate::addr::IpType;
use crate::addr::ipv4_text;
use crate::addr::ipv6_text;
use crate::ipnet::IpNet;
use crate::text::dec_text;
use crate::text::u32_to_string;

verus! {

/// One attribute carried on a link record by the network subsystem, as far
/// as the library reads it: the interface name, or something else.
#[derive(Debug, Clone, PartialEq, Eq)]
pub enum LinkAttr {
    Name(String),
    Other,
}

/// A raw link record: the kernel-stable interface index and the record's
/// attributes.
#[derive(Debug, Clone, PartialEq, Eq)]
pub struct LinkRecord {
    pub index: u32,
    pub attrs: Vec<LinkAttr>,
}

/// One entry of the interface directory.
#[derive(Debug, Clone, PartialEq, Eq)]
pub struct LinkEntry {
    pub index: u32,
    pub name: String,
}

/// The first name attribute of a link record, if any.
pub open spec fn first_name(attrs: Seq<LinkAttr>) -> Option<Seq<char>>
    decreases attrs.len(),
{
    if attrs.len() == 0 {
        None
    } else {
        match attrs[0] {
            LinkAttr::Name(n) => Some(n@),
            LinkAttr::Other => first_name(attrs.drop_first()),
        }
    }
}

/// The directory the records yield: for every record that carries a name,
/// its (index, name) pair, in record order; unnamed records are skipped.
pub open spec fn named_links(rs: Seq<LinkRecord>) -> Seq<(u32, Seq<char>)>
    decreases rs.len(),
{
    if rs.len() == 0 {
        Seq::<(u32, Seq<char>)>::empty()
    } else {
        (match first_name(rs[0].attrs@) {
            Some(n) => seq![(rs[0].index, n)],
            None => Seq::<(u32, Seq<char>)>::empty(),
        }) + named_links(rs.drop_first())
    }
}

/// The directory as a sequence of (index, name) values.
pub open spec fn directory_model(dir: Seq<LinkEntry>) -> Seq<(u32, Seq<char>)> {
    dir.map_values(|e: LinkEntry| (e.index, e.name@))
}

proof fn lemma_named_links_push(rs: Seq<LinkRecord>, r: LinkRecord)
    ensures
        named_links(rs.push(r)) == named_links(rs) + (match first_name(r.attrs@) {
            Some(n) => seq![(r.index, n)],
            None => Seq::<(u32, Seq<char>)>::empty(),
        }),
    decreases rs.len(),
{
    if rs.len() == 0 {
        assert(rs.push(r).drop_first() =~= rs);
        assert(rs.push(r)[0] == r);
        assert(named_links(rs.push(r)) =~= named_links(rs) + (match first_name(r.attrs@) {
            Some(n) => seq![(r.index, n)],
            None => Seq::<(u32, Seq<char>)>::empty(),
        }));
    } else {
        lemma_named_links_push(rs.drop_first(), r);
        assert(rs.push(r).drop_first() =~= rs.drop_first().push(r));
        assert(named_links(rs.push(r)) =~= named_links(rs) + (match first_name(r.attrs@) {
            Some(n) => seq![(r.index, n)],
            None => Seq::<(u32, Seq<char>)>::empty(),
        }));
    }
}

fn record_name(rec: &LinkRecord) -> (r: Option<&String>)
    ensures
        match r {
            Some(n) => first_name(rec.attrs@) == Some(n@),
            None => first_name(rec.attrs@) is None,
        },
{
    let mut j: usize = 0;
    proof {
        assert(rec.attrs@.skip(0) =~= rec.attrs@);
    }
    while j < rec.attrs.len()
        invariant
            0 <= j <= rec.attrs@.len(),
            first_name(rec.attrs@) == first_name(rec.attrs@.skip(j as int)),
            forall|i: int| 0 <= i < j ==> !(#[trigger] rec.attrs@[i] matches LinkAttr::Name(_)),
        decreases rec.attrs@.len() - j,
    {
        proof {
            assert(rec.attrs@.skip(j as int)[0] == rec.attrs@[j as int]);
            assert(rec.attrs@.skip(j as int).drop_first() =~= rec.attrs@.skip(j + 1));
        }
        match &rec.attrs[j] {
            LinkAttr::Name(n) => {
                return Some(n);
            },
            LinkAttr::Other => {
                j = j + 1;
            },
        }
    }
    proof {
        assert(rec.attrs@.skip(j as int).len() == 0);
    }
    None
}

/// Builds the interface directory from the raw link records: every record
/// that carries a name contributes its (index, name) pair, in order; a
/// record with no discoverable name is skipped rather than failing the
/// whole enumeration.
pub fn get_links(records: &Vec<LinkRecord>) -> (dir: Vec<LinkEntry>)
    ensures
        directory_model(dir@) == named_links(records@),
{
    let mut dir: Vec<LinkEntry> = Vec::new();
    let mut i: usize = 0;
    proof {
        assert(records@.subrange(0, 0) =~= Seq::<LinkRecord>::empty());
        assert(directory_model(dir@) =~= named_links(records@.subrange(0, 0)));
    }
    while i < records.len()
        invariant
            0 <= i <= records@.len(),
            directory_model(dir@) == named_links(records@.subrange(0, i as int)),
        decreases records@.len() - i,
    {
        proof {
            lemma_named_links_push(records@.subrange(0, i as int), records@[i as int]);
            assert(records@.subrange(0, i + 1) =~= records@.subrange(0, i as int).push(
                records@[i as int],
            ));
        }
        let name = record_name(&records[i]);
        match name {
            Some(n) => {
                let entry = LinkEntry { index: records[i].index, name: n.clone() };
                dir.push(entry);
                proof {
                    assert(directory_model(dir@) =~= named_links(records@.subrange(0, i + 1)));
                }
            },
            None => {
                proof {
                    assert(directory_model(dir@) =~= named_links(records@.subrange(0, i + 1)));
                }
            },
        }
        i = i + 1;
    }
    proof {
        assert(records@.subrange(0, records@.len() as int) =~= records@);
    }
    dir
}

/// The index of the first directory entry with the given name, if any.
pub open spec fn lookup_index(dir: Seq<LinkEntry>, name: Seq<char>) -> Option<u32>
    decreases dir.len(),
{
    if dir.len() == 0 {
        None
    } else if dir[0].name@ == name {
        Some(dir[0].index)
    } else {
        lookup_index(dir.drop_first(), name)
    }
}

/// Resolves an interface name to its kernel index through the directory.
/// Fails exactly when no entry bears the name.
pub fn get_iface_idx(dir: &Vec<LinkEntry>, iface: &str) -> (r: Option<u32>)
    ensures
        r == lookup_index(dir@, iface@),
{
    let key = String::from_str(iface);
    let mut i: usize = 0;
    proof {
        assert(dir@.skip(0) =~= dir@);
    }
    while i < dir.len()
        invariant
            0 <= i <= dir@.len(),
            key@ == iface@,
            lookup_index(dir@, iface@) == lookup_index(dir@.skip(i as int), iface@),
        decreases dir@.len() - i,
    {
        proof {
            assert(dir@.skip(i as int)[0] == dir@[i as int]);
            assert(dir@.skip(i as int).drop_first() =~= dir@.skip(i + 1));
        }
        if dir[i].name == key {
            return Some(dir[i].index);
        }
        i = i + 1;
    }
    proof {
        assert(dir@.skip(i as int).len() == 0);
    }
    None
}

/// A failure of an interface operation.
#[derive(Debug, Clone, Copy, PartialEq, Eq, Structural)]
pub enum NetError {
    /// The named interface does not resolve to an index.
    InterfaceNotFound,
}

/// A request to change the operational state of the link with the given
/// index.
#[derive(Debug, Clone, PartialEq, Eq)]
pub struct LinkStateRequest {
    pub index: u32,
    pub up: bool,
}

/// A request to assign a network to the interface with the given index.
#[derive(Debug, Clone, PartialEq, Eq)]
pub struct AddressRequest {
    pub index: u32,
    pub net: IpNet,
}

/// A request to install a route: destination network, output interface
/// index, and preferred source address.
#[derive(Debug, Clone, PartialEq, Eq)]
pub struct RouteRequest {
    pub index: u32,
    pub dest: IpNet,
    pub source: IpNet,
}

/// Builds the request that brings a named link up or down. The name is
/// resolved to an index first; an unresolved name is a distinguished
/// failure, never a silent success.
pub fn set_link_state(dir: &Vec<LinkEntry>, iface: &str, up: bool) -> (r: Result<
    LinkStateRequest,
    NetError,
>)
    ensures
        match r {
            Ok(req) => lookup_index(dir@, iface@) == Some(req.index) && req.up == up,
            Err(e) => lookup_index(dir@, iface@) is None && e == NetError::InterfaceNotFound,
        },
{
    match get_iface_idx(dir, iface) {
        Some(index) => Ok(LinkStateRequest { index, up }),
        None => Err(NetError::InterfaceNotFound),
    }
}

/// Builds the request that brings a named link up.
pub fn set_link_up(dir: &Vec<LinkEntry>, iface: &str) -> (r: Result<LinkStateRequest, NetError>)
    ensures
        match r {
            Ok(req) => lookup_index(dir@, iface@) == Some(req.index) && req.up,
            Err(e) => lookup_index(dir@, iface@) is None && e == NetError::InterfaceNotFound,
        },
{
    set_link_state(dir, iface, true)
}

/// Builds the request that brings a named link down.
pub fn set_link_down(dir: &Vec<LinkEntry>, iface: &str) -> (r: Result<LinkStateRequest, NetError>)
    ensures
        match r {
            Ok(req) => lookup_index(dir@, iface@) == Some(req.index) && !req.up,
            Err(e) => lookup_index(dir@, iface@) is None && e == NetError::InterfaceNotFound,
        },
{
    set_link_state(dir, iface, false)
}

/// Builds the request that assigns a network to a named interface. The name
/// is resolved to an index first; an unresolved name fails without leaving
/// any partial state behind.
pub fn add_address(dir: &Vec<LinkEntry>, iface: &str, net: IpNet) -> (r: Result<
    AddressRequest,
    NetError,
>)
    requires
        net.wf(),
    ensures
        match r {
            Ok(req) => {
                &&& lookup_index(dir@, iface@) == Some(req.index)
                &&& req.net.model() == net.model()
                &&& req.net.wf()
            },
            Err(e) => lookup_index(dir@, iface@) is None && e == NetError::InterfaceNotFound,
        },
{
    match get_iface_idx(dir, iface) {
        Some(index) => Ok(AddressRequest { index, net }),
        None => Err(NetError::InterfaceNotFound),
    }
}

/// Builds the request that installs a route through a named interface with
/// a preferred source address. Destination and source must be of one
/// family. The name is resolved to an index first; an unresolved name fails
/// without leaving any partial state behind.
pub fn add_route(dir: &Vec<LinkEntry>, dest: IpNet, iface: &str, source: IpNet) -> (r: Result<
    RouteRequest,
    NetError,
>)
    requires
        dest.wf(),
        source.wf(),
        dest.model().is_v6() == source.model().is_v6(),
    ensures
        match r {
            Ok(req) => {
                &&& lookup_index(dir@, iface@) == Some(req.index)
                &&& req.dest.model() == dest.model()
                &&& req.source.model() == source.model()
            },
            Err(e) => lookup_index(dir@, iface@) is None && e == NetError::InterfaceNotFound,
        },
{
    match get_iface_idx(dir, iface) {
        Some(index) => Ok(RouteRequest { index, dest, source }),
        None => Err(NetError::InterfaceNotFound),
    }
}

/// The views of a sequence of owned lines.
pub open spec fn lines_view(v: Seq<String>) -> Seq<Seq<char>> {
    Seq::new(v.len(), |i: int| v[i]@)
}

proof fn lemma_lines_view_is_deep(v: &Vec<String>)
    ensures
        v.deep_view() == lines_view(v@),
{
    assert forall|i: int| 0 <= i < v@.len() implies v.deep_view()[i] == lines_view(v@)[i] by {
        assert(v.deep_view()[i] == v@[i].deep_view());
    }
    assert(v.deep_view() =~= lines_view(v@));
}

proof fn lemma_lines_view_push(v: Seq<String>, x: String)
    ensures
        lines_view(v.push(x)) == lines_view(v).push(x@),
{
    assert(lines_view(v.push(x)) =~= lines_view(v).push(x@));
}

/// One attribute carried on an address record by the network subsystem, as
/// far as the library reads it: the raw address bytes, or something else.
#[derive(Debug, Clone, PartialEq, Eq)]
pub enum AddrAttr {
    Address(Vec<u8>),
    Other,
}

/// A raw address record of one interface.
#[derive(Debug, Clone, PartialEq, Eq)]
pub struct AddressRecord {
    pub attrs: Vec<AddrAttr>,
}

/// The inventory line for one raw address: its family is read off its
/// length and the bytes are rendered as text; bytes of no family yield an
/// explicit marker line rather than a hard failure.
pub open spec fn addr_line(b: Seq<u8>) -> Seq<char> {
    if b.len() == 4 {
        "\t ipv4: "@ + ipv4_text(b)
    } else if b.len() == 16 {
        "\t ipv6: "@ + ipv6_text(b)
    } else {
        "\t failed to get ip type"@
    }
}

/// The inventory lines of one address record: one line per address
/// attribute.
pub open spec fn attr_lines(attrs: Seq<AddrAttr>) -> Seq<Seq<char>>
    decreases attrs.len(),
{
    if attrs.len() == 0 {
        Seq::<Seq<char>>::empty()
    } else {
        (match attrs[0] {
            AddrAttr::Address(b) => seq![addr_line(b@)],
            AddrAttr::Other => Seq::<Seq<char>>::empty(),
        }) + attr_lines(attrs.drop_first())
    }
}

/// The inventory lines of an interface's address records.
pub open spec fn records_lines(rs: Seq<AddressRecord>) -> Seq<Seq<char>>
    decreases rs.len(),
{
    if rs.len() == 0 {
        Seq::<Seq<char>>::empty()
    } else {
        attr_lines(rs[0].attrs@) + records_lines(rs.drop_first())
    }
}

/// The header lines of one interface dump: for every name attribute of the
/// link record, its index and its name.
pub open spec fn name_lines(attrs: Seq<LinkAttr>, index: u32) -> Seq<Seq<char>>
    decreases attrs.len(),
{
    if attrs.len() == 0 {
        Seq::<Seq<char>>::empty()
    } else {
        (match attrs[0] {
            LinkAttr::Name(n) => seq![
                "\tindex: "@ + dec_text(index as nat),
                "\tname: "@ + n@,
            ],
            LinkAttr::Other => Seq::<Seq<char>>::empty(),
        }) + name_lines(attrs.drop_first(), index)
    }
}

/// The full inventory dump of one interface: its name, then index and name
/// lines from the link record, then one line per address.
pub open spec fn dump_lines(iface: Seq<char>, link: LinkRecord, addrs: Seq<AddressRecord>) -> Seq<
    Seq<char>,
> {
    seq![iface + ":"@] + name_lines(link.attrs@, link.index) + records_lines(addrs)
}

proof fn lemma_attr_lines_push(attrs: Seq<AddrAttr>, a: AddrAttr)
    ensures
        attr_lines(attrs.push(a)) == attr_lines(attrs) + (match a {
            AddrAttr::Address(b) => seq![addr_line(b@)],
            AddrAttr::Other => Seq::<Seq<char>>::empty(),
        }),
    decreases attrs.len(),
{
    if attrs.len() == 0 {
        assert(attrs.push(a).drop_first() =~= attrs);
        assert(attrs.push(a)[0] == a);
        assert(attr_lines(attrs.push(a)) =~= attr_lines(attrs) + (match a {
            AddrAttr::Address(b) => seq![addr_line(b@)],
            AddrAttr::Other => Seq::<Seq<char>>::empty(),
        }));
    } else {
        lemma_attr_lines_push(attrs.drop_first(), a);
        assert(attrs.push(a).drop_first() =~= attrs.drop_first().push(a));
        assert(attr_lines(attrs.push(a)) =~= attr_lines(attrs) + (match a {
            AddrAttr::Address(b) => seq![addr_line(b@)],
            AddrAttr::Other => Seq::<Seq<char>>::empty(),
        }));
    }
}

proof fn lemma_records_lines_push(rs: Seq<AddressRecord>, r: AddressRecord)
    ensures
        records_lines(rs.push(r)) == records_lines(rs) + attr_lines(r.attrs@),
    decreases rs.len(),
{
    if rs.len() == 0 {
        assert(rs.push(r).drop_first() =~= rs);
        assert(rs.push(r)[0] == r);
        assert(records_lines(rs.push(r)) =~= records_lines(rs) + attr_lines(r.attrs@));
    } else {
        lemma_records_lines_push(rs.drop_first(), r);
        assert(rs.push(r).drop_first() =~= rs.drop_first().push(r));
        assert(records_lines(rs.push(r)) =~= records_lines(rs) + attr_lines(r.attrs@));
    }
}

proof fn lemma_name_lines_push(attrs: Seq<LinkAttr>, a: LinkAttr, index: u32)
    ensures
        name_lines(attrs.push(a), index) == name_lines(attrs, index) + (match a {
            LinkAttr::Name(n) => seq![
                "\tindex: "@ + dec_text(index as nat),
                "\tname: "@ + n@,
            ],
            LinkAttr::Other => Seq::<Seq<char>>::empty(),
        }),
    decreases attrs.len(),
{
    if attrs.len() == 0 {
        assert(attrs.push(a).drop_first() =~= attrs);
        assert(attrs.push(a)[0] == a);
        assert(name_lines(attrs.push(a), index) =~= name_lines(attrs, index) + (match a {
            LinkAttr::Name(n) => seq![
                "\tindex: "@ + dec_text(index as nat),
                "\tname: "@ + n@,
            ],
            LinkAttr::Other => Seq::<Seq<char>>::empty(),
        }));
    } else {
        lemma_name_lines_push(attrs.drop_first(), a, index);
        assert(attrs.push(a).drop_first() =~= attrs.drop_first().push(a));
        assert(name_lines(attrs.push(a), index) =~= name_lines(attrs, index) + (match a {
            LinkAttr::Name(n) => seq![
                "\tindex: "@ + dec_text(index as nat),
                "\tname: "@ + n@,
            ],
            LinkAttr::Other => Seq::<Seq<char>>::empty(),
        }));
    }
}

fn address_record_lines(rec: &AddressRecord, out: &mut Vec<String>)
    ensures
        lines_view(final(out)@) == lines_view(old(out)@) + attr_lines(rec.attrs@),
{
    let mut j: usize = 0;
    proof {
        assert(rec.attrs@.subrange(0, 0) =~= Seq::<AddrAttr>::empty());
        assert(lines_view(out@) + attr_lines(rec.attrs@.subrange(0, 0)) =~= lines_view(out@));
    }
    while j < rec.attrs.len()
        invariant
            0 <= j <= rec.attrs@.len(),
            lines_view(out@) == lines_view(old(out)@) + attr_lines(
                rec.attrs@.subrange(0, j as int),
            ),
        decreases rec.attrs@.len() - j,
    {
        proof {
            lemma_attr_lines_push(rec.attrs@.subrange(0, j as int), rec.attrs@[j as int]);
            assert(rec.attrs@.subrange(0, j + 1) =~= rec.attrs@.subrange(0, j as int).push(
                rec.attrs@[j as int],
            ));
        }
        match &rec.attrs[j] {
            AddrAttr::Address(bytes) => {
                let line = match get_ip_type(bytes) {
                    Some(IpType::V4) => {
                        let text = convert_ipv4_to_string(bytes);
                        let mut line = String::from_str("\t ipv4: ");
                        match text {
                            Ok(t) => line.append(t.as_str()),
                            Err(_) => (),
                        }
                        line
                    },
                    Some(IpType::V6) => {
                        let text = convert_ipv6_to_string(bytes);
                        let mut line = String::from_str("\t ipv6: ");
                        match text {
                            Ok(t) => line.append(t.as_str()),
                            Err(_) => (),
                        }
                        line
                    },
                    None => String::from_str("\t failed to get ip type"),
                };
                proof {
                    assert(line@ =~= addr_line(bytes@));
                }
                let ghost pre = out@;
                out.push(line);
                proof {
                    lemma_lines_view_push(pre, line);
                    assert(lines_view(out@) =~= lines_view(old(out)@) + attr_lines(
                        rec.attrs@.subrange(0, j + 1),
                    ));
                }
            },
            AddrAttr::Other => {
                proof {
                    assert(lines_view(out@) =~= lines_view(old(out)@) + attr_lines(
                        rec.attrs@.subrange(0, j + 1),
                    ));
                }
            },
        }
        j = j + 1;
    }
    proof {
        assert(rec.attrs@.subrange(0, rec.attrs@.len() as int) =~= rec.attrs@);
    }
}

/// Renders the human-readable inventory of one interface: its name, the
/// index and name carried on its link record, and one line for each raw
/// address, by family. Address bytes of no family yield an explicit marker
/// line rather than a hard failure.
pub fn dump_addresses(iface: &str, link: &LinkRecord, addrs: &Vec<AddressRecord>) -> (lines: Vec<
    String,
>)
    ensures
        lines.deep_view() == dump_lines(iface@, *link, addrs@),
{
    let mut lines: Vec<String> = Vec::new();
    let mut header = String::from_str(iface);
    header.append(":");
    let ghost empty_lines = lines@;
    lines.push(header);

    let mut j: usize = 0;
    proof {
        lemma_lines_view_push(empty_lines, header);
        assert(link.attrs@.subrange(0, 0) =~= Seq::<LinkAttr>::empty());
        assert(lines_view(lines@) =~= seq![iface@ + ":"@] + name_lines(
            link.attrs@.subrange(0, 0),
            link.index,
        ));
    }
    while j < link.attrs.len()
        invariant
            0 <= j <= link.attrs@.len(),
            lines_view(lines@) == seq![iface@ + ":"@] + name_lines(
                link.attrs@.subrange(0, j as int),
                link.index,
            ),
        decreases link.attrs@.len() - j,
    {
        proof {
            lemma_name_lines_push(link.attrs@.subrange(0, j as int), link.attrs@[j as int],
                link.index);
            assert(link.attrs@.subrange(0, j + 1) =~= link.attrs@.subrange(0, j as int).push(
                link.attrs@[j as int],
            ));
        }
        match &link.attrs[j] {
            LinkAttr::Name(n) => {
                let mut index_line = String::from_str("\tindex: ");
                let index_text = u32_to_string(link.index);
                index_line.append(index_text.as_str());
                let ghost pre1 = lines@;
                lines.push(index_line);
                let mut name_line = String::from_str("\tname: ");
                name_line.append(n.as_str());
                let ghost pre2 = lines@;
                lines.push(name_line);
                proof {
                    lemma_lines_view_push(pre1, index_line);
                    lemma_lines_view_push(pre2, name_line);
                    assert(lines_view(lines@) =~= seq![iface@ + ":"@] + name_lines(
                        link.attrs@.subrange(0, j + 1),
                        link.index,
                    ));
                }
            },
            LinkAttr::Other => {
                proof {
                    assert(lines_view(lines@) =~= seq![iface@ + ":"@] + name_lines(
                        link.attrs@.subrange(0, j + 1),
                        link.index,
                    ));
                }
            },
        }
        j = j + 1;
    }
    proof {
        assert(link.attrs@.subrange(0, link.attrs@.len() as int) =~= link.attrs@);
    }

    let mut k: usize = 0;
    proof {
        assert(addrs@.subrange(0, 0) =~= Seq::<AddressRecord>::empty());
        assert(lines_view(lines@) + records_lines(addrs@.subrange(0, 0)) =~= lines_view(lines@));
    }
    let ghost after_header = lines_view(lines@);
    while k < addrs.len()
        invariant
            0 <= k <= addrs@.len(),
            lines_view(lines@) == after_header + records_lines(addrs@.subrange(0, k as int)),
        decreases addrs@.len() - k,
    {
        proof {
            lemma_records_lines_push(addrs@.subrange(0, k as int), addrs@[k as int]);
            assert(addrs@.subrange(0, k + 1) =~= addrs@.subrange(0, k as int).push(
                addrs@[k as int],
            ));
        }
        address_record_lines(&addrs[k], &mut lines);
        k = k + 1;
    }
    proof {
        assert(addrs@.subrange(0, addrs@.len() as int) =~= addrs@);
        lemma_lines_view_is_deep(&lines);
        assert(lines.deep_view() =~= dump_lines(iface@, *link, addrs@));
    }
    lines
}

/// The flattened lines of a sequence of per-interface dumps.
pub open spec fn flatten_dumps(d: Seq<Seq<Seq<char>>>) -> Seq<Seq<char>>
    decreases d.len(),
{
    if d.len() == 0 {
        Seq::<Seq<char>>::empty()
    } else {
        d[0] + flatten_dumps(d.drop_first())
    }
}

proof fn lemma_flatten_dumps_push(d: Seq<Seq<Seq<char>>>, x: Seq<Seq<char>>)
    ensures
        flatten_dumps(d.push(x)) == flatten_dumps(d) + x,
    decreases d.len(),
{
    if d.len() == 0 {
        assert(d.push(x).drop_first() =~= d);
        assert(d.push(x)[0] == x);
        assert(flatten_dumps(d.push(x)) =~= flatten_dumps(d) + x);
    } else {
        lemma_flatten_dumps_push(d.drop_first(), x);
        assert(d.push(x).drop_first() =~= d.drop_first().push(x));
        assert(flatten_dumps(d.push(x)) =~= flatten_dumps(d) + x);
    }
}

/// Assembles the full network inventory report from the per-interface
/// dumps: a banner, the flattened dumps, and a closing rule.
pub fn show_network_info(dumps: &Vec<Vec<String>>) -> (lines: Vec<String>)
    ensures
        lines.deep_view() == seq!["=== Network Interfaces ==="@, "Addresses:"@] + flatten_dumps(
            dumps.deep_view(),
        ) + seq!["=========================="@],
{
    let mut lines: Vec<String> = Vec::new();
    let banner_line = String::from_str("=== Network Interfaces ===");
    let ghost pre0 = lines@;
    lines.push(banner_line);
    let addresses_line = String::from_str("Addresses:");
    let ghost pre1 = lines@;
    lines.push(addresses_line);
    let ghost header = lines_view(lines@);
    proof {
        lemma_lines_view_push(pre0, banner_line);
        lemma_lines_view_push(pre1, addresses_line);
        assert(header =~= seq!["=== Network Interfaces ==="@, "Addresses:"@]);
        assert(dumps.deep_view().subrange(0, 0) =~= Seq::<Seq<Seq<char>>>::empty());
        assert(header + flatten_dumps(dumps.deep_view().subrange(0, 0)) =~= header);
    }
    let mut i: usize = 0;
    while i < dumps.len()
        invariant
            0 <= i <= dumps@.len(),
            dumps@.len() == dumps.deep_view().len(),
            lines_view(lines@) == header + flatten_dumps(
                dumps.deep_view().subrange(0, i as int),
            ),
        decreases dumps@.len() - i,
    {
        proof {
            lemma_flatten_dumps_push(dumps.deep_view().subrange(0, i as int),
                dumps.deep_view()[i as int]);
            assert(dumps.deep_view().subrange(0, i + 1) =~= dumps.deep_view().subrange(
                0,
                i as int,
            ).push(dumps.deep_view()[i as int]));
        }
        let dump = &dumps[i];
        let mut j: usize = 0;
        proof {
            assert(dumps.deep_view()[i as int] == dump.deep_view());
            lemma_lines_view_is_deep(dump);
            assert(lines_view(dump@).subrange(0, 0) =~= Seq::<Seq<char>>::empty());
            assert(lines_view(lines@) + lines_view(dump@).subrange(0, 0) =~= lines_view(lines@));
        }
        let ghost before = lines_view(lines@);
        while j < dump.len()
            invariant
                0 <= j <= dump@.len(),
                lines_view(lines@) == before + lines_view(dump@).subrange(0, j as int),
            decreases dump@.len() - j,
        {
            let line = dump[j].clone();
            let ghost pre = lines@;
            lines.push(line);
            proof {
                lemma_lines_view_push(pre, line);
                assert(line@ == lines_view(dump@)[j as int]);
                assert(lines_view(dump@).subrange(0, j + 1) =~= lines_view(dump@).subrange(
                    0,
                    j as int,
                ).push(lines_view(dump@)[j as int]));
                assert(lines_view(lines@) =~= before + lines_view(dump@).subrange(0, j + 1));
            }
            j = j + 1;
        }
        proof {
            assert(lines_view(dump@).subrange(0, dump@.len() as int) =~= lines_view(dump@));
            lemma_lines_view_is_deep(dump);
            assert(lines_view(lines@) =~= header + flatten_dumps(
                dumps.deep_view().subrange(0, i + 1),
            ));
        }
        i = i + 1;
    }
    proof {
        assert(dumps.deep_view().subrange(0, dumps.deep_view().len() as int)
            =~= dumps.deep_view());
    }
    let closing_line = String::from_str("==========================");
    let ghost pre2 = lines@;
    lines.push(closing_line);
    proof {
        lemma_lines_view_push(pre2, closing_line);
        lemma_lines_view_is_deep(&lines);
        assert(lines.deep_view() =~= seq!["=== Network Interfaces ==="@, "Addresses:"@]
            + flatten_dumps(dumps.deep_view()) + seq!["=========================="@]);
    }
    lines
}

} // verus!
