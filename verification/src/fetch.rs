use vstd::prelude::*;
use vstd::string::*;

verus! {

/// The artifacts an update cycle tracks. The binary databases for ASN and
/// city lookups are optional; the country database and the ISO metadata
/// CSV are always fetched.
#[derive(Clone, Copy, Debug, PartialEq, Eq, Structural)]
pub enum Kind {
    Asn,
    Cities,
    Countries,
    IsoCsv,
}

/// Configuration of a cycle: which optional artifacts are enabled, and
/// whether refreshing is suppressed outright.
#[derive(Clone, Copy, Debug, PartialEq, Eq, Structural)]
pub struct UpdateConfig {
    pub asn: bool,
    pub cities: bool,
    pub frozen: bool,
}

/// The provider URL for an archive artifact of the given edition,
/// authenticated by the license key.
pub open spec fn archive_url_spec(edition: Seq<char>, key: Seq<char>) -> Seq<char> {
    "https://download.maxmind.com/app/geoip_download?edition_id="@ + edition + "&license_key="@
        + key + "&suffix=tar.gz"@
}

/// The static URL of the ISO country metadata CSV.
pub open spec fn iso_csv_url_spec() -> Seq<char> {
    "https://raw.githubusercontent.com/datasets/country-codes/master/data/country-codes.csv"@
}

/// Builds the provider URL for an archive artifact.
pub fn build_archive_url(edition: &str, key: &str) -> (r: String)
    ensures
        r@ == archive_url_spec(edition@, key@),
{
    let mut url = String::new();
    url.append("https://download.maxmind.com/app/geoip_download?edition_id=");
    url.append(edition);
    url.append("&license_key=");
    url.append(key);
    url.append("&suffix=tar.gz");
    proof {
        assert(url@ =~= archive_url_spec(edition@, key@));
    }
    url
}

/// One artifact to fetch: where to get it, where it lands in the scratch
/// directory, and where its payload goes in the live directory.
pub struct FetchJob {
    pub kind: Kind,
    /// The URL to download.
    pub url: String,
    /// File name the download is written to, inside the scratch directory.
    pub archive_name: String,
    /// Scratch subdirectory the archive unpacks into (archived kinds only).
    pub unpack_dir: String,
    /// Name of the payload file inside the unpacked directory's single
    /// entry (archived kinds only).
    pub payload_name: String,
    /// Destination name inside the live directory.
    pub dest_name: String,
    /// Whether the download is a gzipped tar archive to unpack, rather
    /// than a flat file.
    pub archived: bool,
}

/// The fixed names and URL that belong to a job's kind.
pub open spec fn job_wf(j: FetchJob, key: Seq<char>) -> bool {
    match j.kind {
        Kind::Asn => j.url@ == archive_url_spec("GeoLite2-ASN"@, key) && j.archived
            && j.archive_name@ == "asn.tar.gz"@ && j.unpack_dir@ == "asn"@ && j.payload_name@
            == "GeoLite2-ASN.mmdb"@ && j.dest_name@ == "dbs/asn.mmdb"@,
        Kind::Cities => j.url@ == archive_url_spec("GeoLite2-City"@, key) && j.archived
            && j.archive_name@ == "cities.tar.gz"@ && j.unpack_dir@ == "cities"@ && j.payload_name@
            == "GeoLite2-City.mmdb"@ && j.dest_name@ == "dbs/cities.mmdb"@,
        Kind::Countries => j.url@ == archive_url_spec("GeoLite2-Country"@, key) && j.archived
            && j.archive_name@ == "countries.tar.gz"@ && j.unpack_dir@ == "countries"@
            && j.payload_name@ == "GeoLite2-Country.mmdb"@ && j.dest_name@
            == "dbs/countries.mmdb"@,
        Kind::IsoCsv => j.url@ == iso_csv_url_spec() && !j.archived && j.archive_name@
            == "countries-iso.csv"@ && j.dest_name@ == "dbs/countries-iso.csv"@,
    }
}

/// The artifacts of one cycle, in the order they are fetched and copied:
/// the enabled optional kinds, then the country database, then the CSV.
pub open spec fn plan_kinds(cfg: UpdateConfig) -> Seq<Kind> {
    (if cfg.asn {
        seq![Kind::Asn]
    } else {
        Seq::<Kind>::empty()
    }) + (if cfg.cities {
        seq![Kind::Cities]
    } else {
        Seq::<Kind>::empty()
    }) + seq![Kind::Countries, Kind::IsoCsv]
}

/// No kind occurs twice in a cycle's plan.
pub proof fn lemma_plan_kinds_distinct(cfg: UpdateConfig)
    ensures
        forall|a: int, b: int|
            0 <= a < b < plan_kinds(cfg).len() ==> plan_kinds(cfg)[a] != plan_kinds(cfg)[b],
{
    let p = plan_kinds(cfg);
    if cfg.asn && cfg.cities {
        assert(p =~= seq![Kind::Asn, Kind::Cities, Kind::Countries, Kind::IsoCsv]);
    } else if cfg.asn {
        assert(p =~= seq![Kind::Asn, Kind::Countries, Kind::IsoCsv]);
    } else if cfg.cities {
        assert(p =~= seq![Kind::Cities, Kind::Countries, Kind::IsoCsv]);
    } else {
        assert(p =~= seq![Kind::Countries, Kind::IsoCsv]);
    }
}

/// How many artifacts the cycle's plan holds.
pub fn plan_len(cfg: &UpdateConfig) -> (n: usize)
    ensures
        n == plan_kinds(*cfg).len(),
{
    let mut n: usize = 2;
    if cfg.asn {
        n = n + 1;
    }
    if cfg.cities {
        n = n + 1;
    }
    n
}

/// The kind at position `i` of the cycle's plan.
pub fn kind_at(cfg: &UpdateConfig, i: usize) -> (k: Kind)
    requires
        i < plan_kinds(*cfg).len(),
    ensures
        k == plan_kinds(*cfg)[i as int],
{
    let mut idx = i;
    if cfg.asn {
        if idx == 0 {
            return Kind::Asn;
        }
        idx = idx - 1;
    }
    if cfg.cities {
        if idx == 0 {
            return Kind::Cities;
        }
        idx = idx - 1;
    }
    if idx == 0 {
        Kind::Countries
    } else {
        Kind::IsoCsv
    }
}

/// The job of the given kind within a plan, where the plan holds one.
pub fn job_for_kind<'a>(jobs: &'a Vec<FetchJob>, kind: Kind) -> (r: Option<&'a FetchJob>)
    ensures
        (match r {
            Some(j) => j.kind == kind && (exists|i: int|
                0 <= i < jobs@.len() && #[trigger] jobs@[i] == *j),
            None => forall|i: int| 0 <= i < jobs@.len() ==> (#[trigger] jobs@[i]).kind != kind,
        }),
{
    let mut i: usize = 0;
    while i < jobs.len()
        invariant
            i <= jobs@.len(),
            forall|l: int| 0 <= l < i ==> (#[trigger] jobs@[l]).kind != kind,
        decreases jobs@.len() - i,
    {
        if jobs[i].kind == kind {
            return Some(&jobs[i]);
        }
        i = i + 1;
    }
    None
}

fn archive_job(kind: Kind, edition: &str, key: &str, archive_name: &str, unpack_dir: &str,
    payload_name: &str, dest_name: &str) -> (j: FetchJob)
    ensures
        j.kind == kind,
        j.url@ == archive_url_spec(edition@, key@),
        j.archived,
        j.archive_name@ == archive_name@,
        j.unpack_dir@ == unpack_dir@,
        j.payload_name@ == payload_name@,
        j.dest_name@ == dest_name@,
{
    FetchJob {
        kind,
        url: build_archive_url(edition, key),
        archive_name: archive_name.to_owned(),
        unpack_dir: unpack_dir.to_owned(),
        payload_name: payload_name.to_owned(),
        dest_name: dest_name.to_owned(),
        archived: true,
    }
}

/// Lays the cycle's fetch plan out: one job per artifact of
/// `plan_kinds(cfg)`, in order, each with its fixed names and its
/// provider URL built around the credential `key`.
pub fn fetch_plan(cfg: &UpdateConfig, key: &str) -> (jobs: Vec<FetchJob>)
    ensures
        jobs@.len() == plan_kinds(*cfg).len(),
        forall|i: int|
            0 <= i < jobs@.len() ==> (#[trigger] jobs@[i]).kind == plan_kinds(*cfg)[i] && job_wf(
                jobs@[i],
                key@,
            ),
{
    let mut jobs: Vec<FetchJob> = Vec::new();
    if cfg.asn {
        jobs.push(
            archive_job(
                Kind::Asn,
                "GeoLite2-ASN",
                key,
                "asn.tar.gz",
                "asn",
                "GeoLite2-ASN.mmdb",
                "dbs/asn.mmdb",
            ),
        );
    }
    if cfg.cities {
        jobs.push(
            archive_job(
                Kind::Cities,
                "GeoLite2-City",
                key,
                "cities.tar.gz",
                "cities",
                "GeoLite2-City.mmdb",
                "dbs/cities.mmdb",
            ),
        );
    }
    jobs.push(
        archive_job(
            Kind::Countries,
            "GeoLite2-Country",
            key,
            "countries.tar.gz",
            "countries",
            "GeoLite2-Country.mmdb",
            "dbs/countries.mmdb",
        ),
    );
    let csv_job = FetchJob {
        kind: Kind::IsoCsv,
        url: "https://raw.githubusercontent.com/datasets/country-codes/master/data/country-codes.csv".to_owned(),
        archive_name: "countries-iso.csv".to_owned(),
        unpack_dir: String::new(),
        payload_name: String::new(),
        dest_name: "dbs/countries-iso.csv".to_owned(),
        archived: false,
    };
    jobs.push(csv_job);
    proof {
        let p = plan_kinds(*cfg);
        if cfg.asn && cfg.cities {
            assert(p =~= seq![Kind::Asn, Kind::Cities, Kind::Countries, Kind::IsoCsv]);
        } else if cfg.asn {
            assert(p =~= seq![Kind::Asn, Kind::Countries, Kind::IsoCsv]);
        } else if cfg.cities {
            assert(p =~= seq![Kind::Cities, Kind::Countries, Kind::IsoCsv]);
        } else {
            assert(p =~= seq![Kind::Countries, Kind::IsoCsv]);
        }
    }
    jobs
}

} // verus!
