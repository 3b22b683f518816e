use geolite_db::fetch::{
    build_archive_url, fetch_plan, job_for_kind, kind_at, plan_len, Kind, UpdateConfig,
};

const ALL: UpdateConfig = UpdateConfig { asn: true, cities: true, frozen: false };
const MINIMAL: UpdateConfig = UpdateConfig { asn: false, cities: false, frozen: false };

#[test]
fn archive_url_exact() {
    let url = build_archive_url("GeoLite2-ASN", "k3y");
    assert_eq!(
        url,
        "https://download.maxmind.com/app/geoip_download?edition_id=GeoLite2-ASN&license_key=k3y&suffix=tar.gz"
    );
}

#[test]
fn plan_orders_all_kinds() {
    let jobs = fetch_plan(&ALL, "k");
    let kinds: Vec<Kind> = jobs.iter().map(|j| j.kind).collect();
    assert_eq!(
        kinds,
        vec![Kind::Asn, Kind::Cities, Kind::Countries, Kind::IsoCsv]
    );
    assert_eq!(plan_len(&ALL), 4);
}

#[test]
fn plan_always_has_countries_and_csv() {
    let jobs = fetch_plan(&MINIMAL, "k");
    let kinds: Vec<Kind> = jobs.iter().map(|j| j.kind).collect();
    assert_eq!(kinds, vec![Kind::Countries, Kind::IsoCsv]);
    assert_eq!(plan_len(&MINIMAL), 2);
}

#[test]
fn plan_job_names() {
    let jobs = fetch_plan(&ALL, "secret");
    let asn = &jobs[0];
    assert_eq!(asn.archive_name, "asn.tar.gz");
    assert_eq!(asn.unpack_dir, "asn");
    assert_eq!(asn.payload_name, "GeoLite2-ASN.mmdb");
    assert_eq!(asn.dest_name, "dbs/asn.mmdb");
    assert!(asn.archived);
    assert_eq!(
        asn.url,
        "https://download.maxmind.com/app/geoip_download?edition_id=GeoLite2-ASN&license_key=secret&suffix=tar.gz"
    );
    let cities = &jobs[1];
    assert_eq!(cities.dest_name, "dbs/cities.mmdb");
    assert!(cities.url.contains("edition_id=GeoLite2-City&"));
    let countries = &jobs[2];
    assert_eq!(countries.payload_name, "GeoLite2-Country.mmdb");
    assert_eq!(countries.dest_name, "dbs/countries.mmdb");
    let csv = &jobs[3];
    assert!(!csv.archived);
    assert_eq!(csv.archive_name, "countries-iso.csv");
    assert_eq!(csv.dest_name, "dbs/countries-iso.csv");
    assert_eq!(
        csv.url,
        "https://raw.githubusercontent.com/datasets/country-codes/master/data/country-codes.csv"
    );
}

#[test]
fn job_for_kind_finds_the_job() {
    let jobs = fetch_plan(&MINIMAL, "k");
    let csv = job_for_kind(&jobs, Kind::IsoCsv).unwrap();
    assert_eq!(csv.dest_name, "dbs/countries-iso.csv");
    assert!(job_for_kind(&jobs, Kind::Asn).is_none());
}

#[test]
fn kind_at_follows_plan() {
    assert_eq!(kind_at(&ALL, 0), Kind::Asn);
    assert_eq!(kind_at(&ALL, 1), Kind::Cities);
    assert_eq!(kind_at(&ALL, 2), Kind::Countries);
    assert_eq!(kind_at(&ALL, 3), Kind::IsoCsv);
    assert_eq!(kind_at(&MINIMAL, 0), Kind::Countries);
    assert_eq!(kind_at(&MINIMAL, 1), Kind::IsoCsv);
}
