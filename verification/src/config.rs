//! The configuration: its values and defaults, and which file it is read from.
//!
//! A local file beside the requested one takes its place:
//! 1. `config.yaml.local`,
//! 2. `config.local.yaml`.

use crate::outside;
use crate::text;
use vstd::prelude::*;
use vstd::string::*;

verus! {

/// The port of `lmgrd` where none is configured.
pub fn default_lmgrd_port() -> (r: u16)
    ensures
        r == 27000,
{
    27000
}

/// The seconds between collections where none are configured.
pub fn default_interval() -> (r: u64)
    ensures
        r == 30,
{
    30
}

/// The seconds that a run of `lmutil` may take where none are configured.
pub fn default_timeout() -> (r: u64)
    ensures
        r == 15,
{
    15
}

/// The attempts per collection where none are configured.
pub fn default_retries() -> (r: u32)
    ensures
        r == 3,
{
    3
}

/// The port of the metrics endpoint where none is configured.
pub fn default_metrics_port() -> (r: u16)
    ensures
        r == 9091,
{
    9091
}

/// One license server.
#[derive(Debug)]
pub struct LicenseServerConfig {
    /// The name it is shown under, and its `server` label.
    pub name: String,
    /// Its host name or address.
    pub host: String,
    /// The port of `lmgrd`.
    pub port: u16,
    /// The `lmutil` executable; looked up in `PATH` where empty.
    pub lmutil_path: String,
    /// The port of the vendor daemon.
    pub vendor_port: Option<u16>,
}

/// The model of [`LicenseServerConfig`].
#[verifier::ext_equal]
pub struct LicenseServerConfigView {
    pub name: Seq<char>,
    pub host: Seq<char>,
    pub port: u16,
    pub lmutil_path: Seq<char>,
    pub vendor_port: Option<u16>,
}

impl View for LicenseServerConfig {
    type V = LicenseServerConfigView;

    open spec fn view(&self) -> LicenseServerConfigView {
        LicenseServerConfigView {
            name: self.name@,
            host: self.host@,
            port: self.port,
            lmutil_path: self.lmutil_path@,
            vendor_port: self.vendor_port,
        }
    }
}

impl Clone for LicenseServerConfig {
    fn clone(&self) -> (r: Self)
        ensures
            r@ == self@,
    {
        LicenseServerConfig {
            name: self.name.clone(),
            host: self.host.clone(),
            port: self.port,
            lmutil_path: self.lmutil_path.clone(),
            vendor_port: self.vendor_port,
        }
    }
}

/// The models of a list of servers.
pub open spec fn servers_view(servers: Seq<LicenseServerConfig>) -> Seq<LicenseServerConfigView> {
    Seq::new(servers.len(), |i: int| servers[i]@)
}

/// Copies a list of servers.
pub fn clone_servers(servers: &Vec<LicenseServerConfig>) -> (r: Vec<LicenseServerConfig>)
    ensures
        servers_view(r@) == servers_view(servers@),
{
    let mut r: Vec<LicenseServerConfig> = Vec::new();
    let mut i: usize = 0;
    while i < servers.len()
        invariant
            i <= servers@.len(),
            servers_view(r@) == servers_view(servers@).take(i as int),
        decreases servers@.len() - i,
    {
        let ghost before = servers_view(r@);
        let server = servers[i].clone();
        r.push(server);
        assert(servers_view(r@) =~= before.push(server@));
        assert(servers_view(servers@).take(i + 1) =~= servers_view(servers@).take(i as int).push(
            server@,
        ));
        i += 1;
    }
    assert(servers_view(servers@).take(i as int) =~= servers_view(servers@));
    r
}

/// How the servers are collected.
#[derive(Debug, Clone, Copy)]
pub struct CollectorSection {
    /// Seconds between collections.
    pub interval: u64,
    /// Seconds that a run of `lmutil` may take.
    pub timeout: u64,
    /// Attempts per collection.
    pub retries: u32,
}

impl Default for CollectorSection {
    fn default() -> (r: Self)
        ensures
            r.interval == 30,
            r.timeout == 15,
            r.retries == 3,
    {
        CollectorSection {
            interval: default_interval(),
            timeout: default_timeout(),
            retries: default_retries(),
        }
    }
}

/// Where the metrics are served.
#[derive(Debug, Clone, Copy)]
pub struct PrometheusSection {
    /// The port of the metrics endpoint.
    pub port: u16,
}

impl Default for PrometheusSection {
    fn default() -> (r: Self)
        ensures
            r.port == 9091,
    {
        PrometheusSection { port: default_metrics_port() }
    }
}

/// The whole configuration.
#[derive(Debug)]
pub struct Config {
    pub license_servers: Vec<LicenseServerConfig>,
    pub collector: CollectorSection,
    pub prometheus: PrometheusSection,
}

impl Clone for Config {
    fn clone(&self) -> (r: Self)
        ensures
            servers_view(r.license_servers@) == servers_view(self.license_servers@),
            r.collector == self.collector,
            r.prometheus == self.prometheus,
    {
        Config {
            license_servers: clone_servers(&self.license_servers),
            collector: self.collector,
            prometheus: self.prometheus,
        }
    }
}

impl Default for Config {
    fn default() -> (r: Self)
        ensures
            r.license_servers@.len() == 0,
            r.collector == (CollectorSection { interval: 30, timeout: 15, retries: 3 }),
            r.prometheus == (PrometheusSection { port: 9091 }),
    {
        Config {
            license_servers: Vec::new(),
            collector: CollectorSection::default(),
            prometheus: PrometheusSection::default(),
        }
    }
}

/// The configured count, but at least one.
pub open spec fn at_least_one(n: int) -> int {
    if n < 1 {
        1
    } else {
        n
    }
}

impl Config {
    /// Seconds between collections, at least one, so that the collector never spins.
    pub fn interval(&self) -> (r: u64)
        ensures
            r == at_least_one(self.collector.interval as int),
    {
        if self.collector.interval < 1 {
            1
        } else {
            self.collector.interval
        }
    }

    /// Seconds that a run of `lmutil` may take, at least one.
    pub fn timeout(&self) -> (r: u64)
        ensures
            r == at_least_one(self.collector.timeout as int),
    {
        if self.collector.timeout < 1 {
            1
        } else {
            self.collector.timeout
        }
    }

    /// Attempts per collection, at least one.
    pub fn retries(&self) -> (r: u32)
        ensures
            r == at_least_one(self.collector.retries as int),
    {
        if self.collector.retries < 1 {
            1
        } else {
            self.collector.retries
        }
    }

    /// The port to serve the metrics on: the requested one, or the configured one.
    pub fn metrics_port(&self, requested: Option<u16>) -> (r: u16)
        ensures
            r == (match requested {
                Some(port) => port,
                None => self.prometheus.port,
            }),
    {
        match requested {
            Some(port) => port,
            None => self.prometheus.port,
        }
    }
}

/// The position of the last dot before `to`, or -1.
pub open spec fn last_dot(name: Seq<char>, to: int) -> int
    decreases to,
{
    if to <= 0 {
        -1
    } else if name[to - 1] == '.' {
        to - 1
    } else {
        last_dot(name, to - 1)
    }
}

/// The stem and the extension of a file name, which the last dot parts. A name
/// without a dot, or with none but at its start, has no extension.
pub open spec fn stem_and_extension(name: Seq<char>) -> Option<(Seq<char>, Seq<char>)> {
    let dot = last_dot(name, name.len() as int);
    if dot > 0 {
        Some((name.take(dot), name.skip(dot + 1)))
    } else {
        None
    }
}

/// The names of the local files that take the place of a requested one, the
/// preferred one first: the name with `.local` at its end, then the name with
/// `.local` before its extension. A path without a file name has none.
pub open spec fn override_names_view(file_name: Option<String>) -> Seq<Seq<char>> {
    match file_name {
        Some(name) => match stem_and_extension(name@) {
            Some((stem, extension)) => seq![
                name@ + ".local"@,
                stem + ".local."@ + extension,
            ],
            None => seq![name@ + ".local"@],
        },
        None => Seq::empty(),
    }
}

/// Gives the names of the local files that take the place of a requested one.
pub fn override_names(file_name: &Option<String>) -> (r: Vec<String>)
    ensures
        text::texts(r@) == override_names_view(*file_name),
{
    let mut r: Vec<String> = Vec::new();
    match file_name {
        Some(name) => {
            let mut appended = name.clone();
            appended.append(".local");
            r.push(appended);
            let chars = text::chars_of(name.as_str());
            let n: usize = chars.len();
            let mut end: usize = n;
            while end > 0 && chars[end - 1] != '.'
                invariant
                    n == chars@.len(),
                    chars@ == name@,
                    end <= n,
                    last_dot(name@, n as int) == last_dot(name@, end as int),
                decreases end,
            {
                end -= 1;
            }
            if end > 1 {
                let mut dotted = text::string_of(&chars, 0, end - 1);
                assert(dotted@ =~= name@.take(end - 1));
                dotted.append(".local.");
                let extension = text::string_of(&chars, end, n);
                assert(extension@ =~= name@.skip(end as int));
                dotted.append(extension.as_str());
                r.push(dotted);
            }
        },
        None => {},
    }
    assert(text::texts(r@) =~= override_names_view(*file_name));
    r
}

/// The first name whose file exists.
pub open spec fn first_present(names: Seq<Seq<char>>, present: Seq<bool>) -> Option<Seq<char>>
    decreases names.len(),
{
    if names.len() == 0 || present.len() == 0 {
        None
    } else if present[0] {
        Some(names[0])
    } else {
        first_present(names.drop_first(), present.drop_first())
    }
}

/// Chooses the file to read. `present` tells, for each of the
/// [`override_names`], whether there is a file of that name beside the
/// requested one. The result is the name that takes the place of the requested
/// file's, or `None` where the requested file itself is read.
pub fn resolve_config_path(file_name: &Option<String>, present: &Vec<bool>) -> (r: Option<String>)
    requires
        present@.len() == override_names_view(*file_name).len(),
    ensures
        match r {
            Some(name) => first_present(override_names_view(*file_name), present@) == Some(name@),
            None => first_present(override_names_view(*file_name), present@) is None,
        },
{
    let names = override_names(file_name);
    let ghost all = text::texts(names@);
    let mut i: usize = 0;
    assert(all.skip(0) =~= all);
    assert(present@.skip(0) =~= present@);
    while i < names.len()
        invariant
            i <= names@.len(),
            all == text::texts(names@),
            all == override_names_view(*file_name),
            present@.len() == names@.len(),
            first_present(all, present@) == first_present(
                all.skip(i as int),
                present@.skip(i as int),
            ),
        decreases names@.len() - i,
    {
        assert(all.skip(i as int).drop_first() =~= all.skip(i + 1));
        assert(present@.skip(i as int).drop_first() =~= present@.skip(i + 1));
        if present[i] {
            return Some(names[i].clone());
        }
        i += 1;
    }
    None
}

/// The bytes start with the UTF-8 byte order mark.
pub open spec fn has_bom(bytes: Seq<u8>) -> bool {
    &&& bytes.len() >= 3
    &&& bytes[0] == 0xef
    &&& bytes[1] == 0xbb
    &&& bytes[2] == 0xbf
}

/// The bytes without a byte order mark at their start.
pub open spec fn without_bom(bytes: Seq<u8>) -> Seq<u8> {
    if has_bom(bytes) {
        bytes.skip(3)
    } else {
        bytes
    }
}

/// Drops a byte order mark at the start of the bytes.
pub fn strip_bom(bytes: &[u8]) -> (r: &[u8])
    ensures
        r@ == without_bom(bytes@),
{
    if bytes.len() >= 3 && bytes[0] == 0xef && bytes[1] == 0xbb && bytes[2] == 0xbf {
        let (_, rest) = bytes.split_at(3);
        assert(rest@ =~= bytes@.skip(3));
        rest
    } else {
        bytes
    }
}

/// Gives the text of a configuration file. A byte order mark is dropped, and
/// what is not valid UTF-8 is replaced.
pub fn config_text(bytes: &[u8]) -> (r: String)
    ensures
        r@ == outside::utf8_lossy(without_bom(bytes@)),
        vstd::utf8::valid_utf8(without_bom(bytes@)) ==> r@ == vstd::utf8::decode_utf8(
            without_bom(bytes@),
        ),
{
    outside::decode_lossy(strip_bom(bytes))
}

/// Where both local files exist, the one with `.local` at its end is read.
pub proof fn law_appended_override_first(file_name: String, present: Seq<bool>)
    requires
        present.len() == override_names_view(Some(file_name)).len(),
        present[0],
    ensures
        first_present(override_names_view(Some(file_name)), present) == Some(
            file_name@ + ".local"@,
        ),
{
}

/// Without a local file the requested one is read; and only then.
pub proof fn law_requested_without_override(names: Seq<Seq<char>>, present: Seq<bool>)
    requires
        present.len() == names.len(),
    ensures
        first_present(names, present) is None <==> forall|i: int|
            0 <= i < present.len() ==> !present[i],
    decreases names.len(),
{
    if names.len() > 0 {
        law_requested_without_override(names.drop_first(), present.drop_first());
        if !present[0] {
            if first_present(names, present) is None {
                assert forall|i: int| 0 <= i < present.len() implies !present[i] by {
                    if i > 0 {
                        assert(!present.drop_first()[i - 1]);
                    }
                }
            } else {
                let i = choose|i: int|
                    0 <= i < present.drop_first().len() && present.drop_first()[i];
                assert(present[i + 1]);
            }
        }
    }
}

/// A file with a byte order mark reads as the bytes behind the mark.
pub proof fn law_bom_is_dropped(bytes: Seq<u8>)
    ensures
        without_bom(seq![0xefu8, 0xbb, 0xbf] + bytes) == bytes,
{
    assert((seq![0xefu8, 0xbb, 0xbf] + bytes).skip(3) =~= bytes);
}

/// A file name with an extension is its stem, a dot and the extension, which holds
/// no dot; the stem is not empty. A name has none exactly where no dot stands
/// behind its first character.
pub proof fn law_extension(name: Seq<char>)
    ensures
        match stem_and_extension(name) {
            Some((stem, extension)) => {
                &&& stem.len() > 0
                &&& name == stem + seq!['.'] + extension
                &&& forall|i: int| 0 <= i < extension.len() ==> #[trigger] extension[i] != '.'
            },
            None => forall|i: int| 1 <= i < name.len() ==> #[trigger] name[i] != '.',
        },
{
    lemma_last_dot(name, name.len() as int);
    let dot = last_dot(name, name.len() as int);
    if dot > 0 {
        assert(name =~= name.take(dot) + seq!['.'] + name.skip(dot + 1));
    }
}

/// The last dot is a dot, or there is none.
proof fn lemma_last_dot(name: Seq<char>, to: int)
    requires
        0 <= to <= name.len(),
    ensures
        -1 <= last_dot(name, to) < to || (to == 0 && last_dot(name, to) == -1),
        last_dot(name, to) >= 0 ==> name[last_dot(name, to)] == '.',
        forall|i: int| last_dot(name, to) < i < to ==> #[trigger] name[i] != '.',
    decreases to,
{
    if to > 0 && name[to - 1] != '.' {
        lemma_last_dot(name, to - 1);
    }
}

/// The local files that take the place of `a.b` are `a.b.local`, then `a.local.b`.
/// Of a name without an extension it is only the first.
pub proof fn law_override_names(file_name: String)
    ensures
        override_names_view(Some(file_name))[0] == file_name@ + ".local"@,
        forall|stem: Seq<char>, extension: Seq<char>|
            #![trigger stem + seq!['.'] + extension]
            stem.len() > 0 && file_name@ == stem + seq!['.'] + extension && (forall|i: int|
                0 <= i < extension.len() ==> #[trigger] extension[i] != '.')
                ==> override_names_view(Some(file_name)) == seq![
                file_name@ + ".local"@,
                stem + ".local."@ + extension,
            ],
        (forall|i: int| 1 <= i < file_name@.len() ==> #[trigger] file_name@[i] != '.')
            ==> override_names_view(Some(file_name)).len() == 1,
        override_names_view(None).len() == 0,
{
    let name = file_name@;
    lemma_last_dot(name, name.len() as int);
    let dot = last_dot(name, name.len() as int);
    assert forall|stem: Seq<char>, extension: Seq<char>|
        #![trigger stem + seq!['.'] + extension]
        stem.len() > 0 && name == stem + seq!['.'] + extension && (forall|i: int|
            0 <= i < extension.len() ==> #[trigger] extension[i] != '.') implies override_names_view(
        Some(file_name),
    ) == seq![name + ".local"@, stem + ".local."@ + extension] by {
        let at = stem.len() as int;
        assert(name[at] == '.');
        assert forall|i: int| at < i < name.len() implies #[trigger] name[i] != '.' by {
            assert(name[i] == extension[i - at - 1]);
        }
        if dot > at {
            assert(name[dot] != '.');
        }
        assert(dot == at);
        assert(name.take(dot) =~= stem);
        assert(name.skip(dot + 1) =~= extension);
    }
    if forall|i: int| 1 <= i < name.len() ==> #[trigger] name[i] != '.' {
        if dot > 0 {
            assert(name[dot] == '.');
        }
    }
}

/// The chosen file is the first of the local files that exist.
pub proof fn law_first_present(names: Seq<Seq<char>>, present: Seq<bool>, k: int)
    requires
        present.len() == names.len(),
        0 <= k < names.len(),
        present[k],
        forall|i: int| 0 <= i < k ==> !present[i],
    ensures
        first_present(names, present) == Some(names[k]),
    decreases names.len(),
{
    if k > 0 {
        assert(!present[0]);
        let rest = present.drop_first();
        assert forall|i: int| 0 <= i < k - 1 implies !rest[i] by {
            assert(rest[i] == present[i + 1]);
        }
        law_first_present(names.drop_first(), rest, k - 1);
    }
}

/// Bytes that do not start with a byte order mark are read as they are.
pub proof fn law_without_mark(bytes: Seq<u8>)
    requires
        bytes.len() < 3 || bytes.take(3) != seq![0xefu8, 0xbb, 0xbf],
    ensures
        without_bom(bytes) == bytes,
{
    if has_bom(bytes) {
        assert(bytes.take(3) =~= seq![0xefu8, 0xbb, 0xbf]);
    }
}

/// A configured number of at least one counts as it is, and zero as one.
pub proof fn law_at_least_one(n: nat)
    ensures
        n >= 1 ==> at_least_one(n as int) == n,
        at_least_one(0) == 1,
{
}

} // verus!
