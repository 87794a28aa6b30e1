//! The D-Bus side of the applet: device records and client snapshots.
//!
//! The sound server's lookup service advertises the private socket in the
//! form `unix:path=<socket path>`; [`parse_server_address`] extracts the part
//! after the last `=`.  The submodules hold the device model and the client
//! that assembles enumerated devices.

use vstd::prelude::*;
use vstd::string::StrSliceExecFns;

pub mod device;
pub mod pulse_dbus_client;

use crate::pulse_dbus::device::DeviceRecord;

verus! {

/// An output device in the first revision of the client, before sinks and
/// sources were folded into one device type.
pub struct Sink {
    pub path: String,
    pub name: String,
    pub volume: Vec<u32>,
    pub mute: bool,
}

/// An input device in the first revision of the client.
pub struct Source {
    pub path: String,
    pub name: String,
    pub volume: Vec<u32>,
    pub mute: bool,
}

/// The sink that a fetched record describes.
pub open spec fn sink_of_record(record: DeviceRecord) -> Sink {
    Sink { path: record.path, name: record.name, volume: record.volume, mute: record.mute }
}

/// The source that a fetched record describes.
pub open spec fn source_of_record(record: DeviceRecord) -> Source {
    Source { path: record.path, name: record.name, volume: record.volume, mute: record.mute }
}

/// A snapshot of the sound server's devices, with sinks and sources as two
/// distinct types.
pub struct PulesDbusClient {
    pub sinks: Vec<Sink>,
    pub sources: Vec<Source>,
}

impl PulesDbusClient {
    /// A client that holds exactly the given enumerated devices.
    pub fn new(sinks: Vec<Sink>, sources: Vec<Source>) -> (client: Self)
        ensures
            client.sinks == sinks,
            client.sources == sources,
    {
        Self { sinks, sources }
    }

    /// The sinks in enumeration order: the `i`th sink is the `i`th fetched
    /// record.
    pub fn get_sinks(records: Vec<DeviceRecord>) -> (sinks: Vec<Sink>)
        ensures
            sinks@.len() == records@.len(),
            forall|i: int| 0 <= i < records@.len() ==> sinks@[i] == sink_of_record(records@[i]),
    {
        let ghost all = records@;
        let mut records = records;
        let mut sinks: Vec<Sink> = Vec::new();
        while records.len() > 0
            invariant
                sinks@.len() + records@.len() == all.len(),
                records@ == all.subrange(sinks@.len() as int, all.len() as int),
                forall|i: int| 0 <= i < sinks@.len() ==> sinks@[i] == sink_of_record(all[i]),
            decreases records@.len(),
        {
            let record = records.remove(0);
            let ghost fetched = record;
            let DeviceRecord { path, name, volume, mute } = record;
            sinks.push(Sink { path, name, volume, mute });
            proof {
                assert(sinks@.last() == sink_of_record(fetched));
                assert(records@ =~= all.subrange(sinks@.len() as int, all.len() as int));
            }
        }
        sinks
    }

    /// The sources in enumeration order: the `i`th source is the `i`th
    /// fetched record.
    pub fn get_sources(records: Vec<DeviceRecord>) -> (sources: Vec<Source>)
        ensures
            sources@.len() == records@.len(),
            forall|i: int| 0 <= i < records@.len() ==> sources@[i] == source_of_record(records@[i]),
    {
        let ghost all = records@;
        let mut records = records;
        let mut sources: Vec<Source> = Vec::new();
        while records.len() > 0
            invariant
                sources@.len() + records@.len() == all.len(),
                records@ == all.subrange(sources@.len() as int, all.len() as int),
                forall|i: int| 0 <= i < sources@.len() ==> sources@[i] == source_of_record(all[i]),
            decreases records@.len(),
        {
            let record = records.remove(0);
            let ghost fetched = record;
            let DeviceRecord { path, name, volume, mute } = record;
            sources.push(Source { path, name, volume, mute });
            proof {
                assert(sources@.last() == source_of_record(fetched));
                assert(records@ =~= all.subrange(sources@.len() as int, all.len() as int));
            }
        }
        sources
    }
}

/// The suffix of `s` after its last `=`, or all of `s` when it has none.
///
/// This is what splitting at `=` and keeping the last piece yields.
pub open spec fn after_last_eq(s: Seq<char>) -> Seq<char>
    decreases s.len(),
{
    if s.len() == 0 {
        s
    } else if s.last() == '=' {
        Seq::empty()
    } else {
        after_last_eq(s.drop_last()).push(s.last())
    }
}

/// Whether `s` contains the separator `=` at all.
pub open spec fn contains_eq(s: Seq<char>) -> bool {
    exists|i: int| 0 <= i < s.len() && s[i] == '='
}

/// The socket path that the lookup service's `Address` property denotes:
/// everything after the last `=` of the advertised string, which itself
/// never contains a further `=`; a string without `=` passes through whole.
pub fn parse_server_address(raw: &str) -> (address: String)
    ensures
        address@ == after_last_eq(raw@),
        !contains_eq(address@),
        !contains_eq(raw@) ==> address@ == raw@,
{
    let n: usize = raw.unicode_len();
    let mut start: usize = 0;
    let mut i: usize = 0;
    while i < n
        invariant
            start <= i <= n,
            n == raw@.len(),
            after_last_eq(raw@.subrange(0, i as int)) == raw@.subrange(start as int, i as int),
        decreases n - i,
    {
        let c = raw.get_char(i);
        proof {
            assert(raw@.subrange(0, (i + 1) as int).drop_last() =~= raw@.subrange(0, i as int));
            assert(raw@.subrange(0, (i + 1) as int).last() == raw@[i as int]);
        }
        if c == '=' {
            start = i + 1;
            proof {
                assert(raw@.subrange(start as int, (i + 1) as int) =~= Seq::<char>::empty());
            }
        } else {
            proof {
                assert(raw@.subrange(start as int, (i + 1) as int) =~= raw@.subrange(
                    start as int,
                    i as int,
                ).push(raw@[i as int]));
            }
        }
        i = i + 1;
    }
    proof {
        assert(raw@.subrange(0, n as int) =~= raw@);
        lemma_after_last_eq(raw@);
    }
    let address = raw.substring_char(start, n);
    address.to_owned()
}

/// What `after_last_eq` leaves behind: a suffix free of `=`, and the whole
/// string whenever no `=` occurs in it.
proof fn lemma_after_last_eq(s: Seq<char>)
    ensures
        !contains_eq(after_last_eq(s)),
        !contains_eq(s) ==> after_last_eq(s) == s,
    decreases s.len(),
{
    if s.len() == 0 {
    } else if s.last() == '=' {
        assert(s[s.len() - 1] == '=');
        assert(contains_eq(s));
    } else {
        lemma_after_last_eq(s.drop_last());
        let tail = after_last_eq(s.drop_last());
        assert forall|i: int| 0 <= i < tail.push(s.last()).len() implies tail.push(s.last())[i]
            != '=' by {
            if i < tail.len() {
                assert(!contains_eq(tail));
            }
        }
        if !contains_eq(s) {
            assert forall|i: int| 0 <= i < s.drop_last().len() implies s.drop_last()[i] != '=' by {
                assert(!contains_eq(s));
                assert(s.drop_last()[i] == s[i]);
            }
            assert(!contains_eq(s.drop_last()));
            assert(after_last_eq(s) =~= s);
        }
    }
}

} // verus!
