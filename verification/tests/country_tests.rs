use geolite_db::country::{
    csv_to_countries, record_to_i32, record_to_i64, record_to_string, record_to_vec_string,
    row_to_country, rows_to_countries, Country, CountryTable,
};
use geolite_db::errors::GDErr;

/// A row with every required column present, the interesting ones filled.
fn india_row() -> Vec<String> {
    let mut row: Vec<String> = (0..55).map(|i| format!("cell{i}")).collect();
    row[1] = "91".to_string();
    row[2] = "IND".to_string();
    row[5] = "356".to_string();
    row[9] = "IN".to_string();
    row[18] = "Rupee".to_string();
    row[25] = "INR".to_string();
    row[41] = "India".to_string();
    row[44] = "Asia".to_string();
    row[49] = "New Delhi".to_string();
    row[50] = "AS".to_string();
    row[51] = ".in".to_string();
    row[52] = "en-IN,hi".to_string();
    row[53] = "1269750".to_string();
    row[54] = "Republic of India".to_string();
    row
}

/// The same row as one CSV line; cells holding commas are quoted.
fn csv_line(row: &[String]) -> String {
    let quoted: Vec<String> = row
        .iter()
        .map(|c| if c.contains(',') { format!("\"{c}\"") } else { c.clone() })
        .collect();
    quoted.join(",")
}

fn header_line() -> String {
    let header: Vec<String> = (0..55).map(|i| format!("col{i}")).collect();
    header.join(",")
}

#[test]
fn row_yields_india_record() {
    let c = row_to_country(&india_row()).unwrap();
    assert_eq!(c.dial_codes, vec!["91".to_string()]);
    assert_eq!(c.iso3, "IND");
    assert_eq!(c.iso_num, Some(356));
    assert_eq!(c.iso2, "IN");
    assert_eq!(c.currency_name, "Rupee");
    assert_eq!(c.currency_code, "INR");
    assert_eq!(c.name, "India");
    assert_eq!(c.region, "Asia");
    assert_eq!(c.capital, "New Delhi");
    assert_eq!(c.continent_code, "AS");
    assert_eq!(c.tld, ".in");
    assert_eq!(
        c.language_codes,
        vec!["en-IN".to_string(), "hi".to_string()]
    );
    assert_eq!(c.geoname_id, Some(1269750));
    assert_eq!(c.display_name, "Republic of India");
}

#[test]
fn short_row_is_an_error() {
    let row: Vec<String> = (0..54).map(|i| format!("cell{i}")).collect();
    assert!(matches!(row_to_country(&row), Err(GDErr::GenericErr(_))));
}

#[test]
fn unparsable_numeric_cell_is_absent_not_an_error() {
    let mut row = india_row();
    row[5] = "notanumber".to_string();
    row[53] = "".to_string();
    let c = row_to_country(&row).unwrap();
    assert_eq!(c.iso_num, None);
    assert_eq!(c.geoname_id, None);
}

#[test]
fn record_helpers() {
    let row = india_row();
    assert_eq!(record_to_string(&row, 2).unwrap(), "IND");
    assert!(matches!(
        record_to_string(&row, 55),
        Err(GDErr::GenericErr(_))
    ));
    assert_eq!(record_to_i32(&row, 5), Some(356));
    assert_eq!(record_to_i32(&row, 99), None);
    let mut plus = row.clone();
    plus[5] = "+5".to_string();
    assert_eq!(record_to_i32(&plus, 5), Some(5));
    assert_eq!(record_to_i64(&row, 53), Some(1269750));
    assert_eq!(
        record_to_vec_string(&row, 52).unwrap(),
        vec!["en-IN".to_string(), "hi".to_string()]
    );
    assert!(matches!(
        record_to_vec_string(&row, 60),
        Err(GDErr::GenericErr(_))
    ));
}

#[test]
fn empty_cell_splits_to_one_empty_piece() {
    let mut row = india_row();
    row[1] = "".to_string();
    let c = row_to_country(&row).unwrap();
    assert_eq!(c.dial_codes, vec!["".to_string()]);
}

#[test]
fn table_last_insert_wins() {
    let mut t = CountryTable::new();
    let mut first = row_to_country(&india_row()).unwrap();
    first.name = "old".to_string();
    let mut second = row_to_country(&india_row()).unwrap();
    second.name = "new".to_string();
    t.insert(first);
    t.insert(second);
    let got = t.get("IN").unwrap();
    assert_eq!(got.name, "new");
    assert!(t.get("ZZ").is_none());
}

#[test]
fn rows_later_duplicate_key_wins() {
    let mut a = india_row();
    a[41] = "first".to_string();
    let mut b = india_row();
    b[41] = "second".to_string();
    let t = rows_to_countries(&vec![a, b]).unwrap();
    assert_eq!(t.get("IN").unwrap().name, "second");
}

#[test]
fn rows_with_short_row_fail() {
    let bad: Vec<String> = vec!["x".to_string(); 10];
    let r = rows_to_countries(&vec![india_row(), bad]);
    assert!(matches!(r, Err(GDErr::GenericErr(_))));
}

#[test]
fn csv_load_yields_india_by_key() {
    let text = format!("{}\n{}\n", header_line(), csv_line(&india_row()));
    let t = csv_to_countries(&text.into_bytes()).unwrap();
    let c = t.get("IN").unwrap();
    assert_eq!(c.dial_codes[0], "91");
    assert_eq!(c.iso3, "IND");
    assert_eq!(c.iso_num, Some(356));
    assert_eq!(c.name, "India");
}

#[test]
fn csv_header_row_is_skipped() {
    let text = format!("{}\n", header_line());
    let t = csv_to_countries(&text.into_bytes()).unwrap();
    assert!(t.get("col9").is_none());
}

#[test]
fn csv_duplicate_key_keeps_later_row() {
    let mut a = india_row();
    a[41] = "first".to_string();
    let mut b = india_row();
    b[41] = "second".to_string();
    let text = format!("{}\n{}\n{}\n", header_line(), csv_line(&a), csv_line(&b));
    let t = csv_to_countries(&text.into_bytes()).unwrap();
    assert_eq!(t.get("IN").unwrap().name, "second");
}

#[test]
fn csv_uneven_rows_are_a_reader_error() {
    let text = format!("{}\na,b,c\n", header_line());
    let r = csv_to_countries(&text.into_bytes());
    assert!(matches!(r, Err(GDErr::CSVErr(_))));
}

#[test]
fn into_records_round_trip() {
    let t = rows_to_countries(&vec![india_row()]).unwrap();
    let records: Vec<Country> = t.into_records();
    assert_eq!(records.len(), 1);
    assert_eq!(records[0].iso2, "IN");
}
