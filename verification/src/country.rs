use vstd::prelude::*;
use vstd::string::*;
use crate::errors::GDErr;
use crate::parse::{parse_i32_chars, parse_i32_spec, parse_i64_chars, parse_i64_spec};

verus! {

// ---------------------------------------------------------------------------
// Views of cells and rows.
// ---------------------------------------------------------------------------

/// The cells of one CSV row, as character sequences.
pub open spec fn cells_view(v: Seq<String>) -> Seq<Seq<char>> {
    Seq::new(v.len(), |i: int| v[i]@)
}

/// A whole CSV, row by row.
pub open spec fn rows_view(r: Seq<Vec<String>>) -> Seq<Seq<Seq<char>>> {
    Seq::new(r.len(), |i: int| cells_view(r[i]@))
}

// ---------------------------------------------------------------------------
// Splitting a comma-delimited cell.
// ---------------------------------------------------------------------------

/// The pieces of `s` between its commas, in order. An empty string is one
/// empty piece; a trailing comma ends with an empty piece.
pub open spec fn split_commas(s: Seq<char>) -> Seq<Seq<char>>
    decreases s.len(),
{
    if s.len() == 0 {
        seq![Seq::<char>::empty()]
    } else if s.last() == ',' {
        split_commas(s.drop_last()).push(Seq::<char>::empty())
    } else {
        let r = split_commas(s.drop_last());
        r.update(r.len() - 1, r.last().push(s.last()))
    }
}

proof fn lemma_split_commas_len(s: Seq<char>)
    ensures
        split_commas(s).len() >= 1,
    decreases s.len(),
{
    if s.len() > 0 {
        lemma_split_commas_len(s.drop_last());
    }
}

fn split_on_commas(s: &str) -> (r: Vec<String>)
    ensures
        cells_view(r@) == split_commas(s@),
{
    let n = s.unicode_len();
    let mut pieces: Vec<String> = Vec::new();
    let mut start: usize = 0;
    let mut i: usize = 0;
    proof {
        assert(s@.take(0) =~= Seq::<char>::empty());
        assert(cells_view(pieces@).push(s@.subrange(0, 0)) =~~= split_commas(s@.take(0)));
    }
    while i < n
        invariant
            start <= i <= n,
            n == s@.len(),
            split_commas(s@.take(i as int)) == cells_view(pieces@).push(
                s@.subrange(start as int, i as int),
            ),
        decreases n - i,
    {
        let ghost pre = s@.take(i as int);
        proof {
            assert(s@.take(i as int + 1).drop_last() =~= pre);
            assert(s@.take(i as int + 1).last() == s@[i as int]);
            lemma_split_commas_len(pre);
        }
        let c = s.get_char(i);
        if c == ',' {
            let piece = s.substring_char(start, i);
            pieces.push(piece.to_owned());
            proof {
                assert(cells_view(pieces@) =~~= split_commas(pre));
                assert(split_commas(s@.take(i as int + 1)) =~~= cells_view(pieces@).push(
                    s@.subrange(i as int + 1, i as int + 1),
                ));
            }
            start = i + 1;
        } else {
            proof {
                let r0 = split_commas(pre);
                assert(r0.last() == s@.subrange(start as int, i as int));
                assert(r0.last().push(s@[i as int]) =~= s@.subrange(start as int, i as int + 1));
                assert(split_commas(s@.take(i as int + 1)) =~~= cells_view(pieces@).push(
                    s@.subrange(start as int, i as int + 1),
                ));
            }
        }
        i = i + 1;
    }
    let last_piece = s.substring_char(start, n);
    pieces.push(last_piece.to_owned());
    proof {
        assert(s@.take(n as int) =~= s@);
        assert(cells_view(pieces@) =~~= split_commas(s@));
    }
    pieces
}

// ---------------------------------------------------------------------------
// One row of the country CSV.
// ---------------------------------------------------------------------------

/// One entry of the country table, keyed by its two-letter ISO code. The
/// comments give the fixed column of the metadata CSV that each field is
/// read from.
#[derive(Debug, Clone, Default)]
pub struct Country {
    pub dial_codes: Vec<String>,     // 1
    pub iso3: String,                // 2
    pub iso_num: Option<i32>,        // 5
    pub iso2: String,                // 9
    pub currency_name: String,       // 18
    pub currency_code: String,       // 25
    pub name: String,                // 41
    pub region: String,              // 44
    pub capital: String,             // 49
    pub continent_code: String,      // 50
    pub tld: String,                 // 51
    pub language_codes: Vec<String>, // 52
    pub geoname_id: Option<i64>,     // 53
    pub display_name: String,        // 54
}

/// The mathematical value of a `Country`.
pub ghost struct CountryV {
    pub dial_codes: Seq<Seq<char>>,
    pub iso3: Seq<char>,
    pub iso_num: Option<i32>,
    pub iso2: Seq<char>,
    pub currency_name: Seq<char>,
    pub currency_code: Seq<char>,
    pub name: Seq<char>,
    pub region: Seq<char>,
    pub capital: Seq<char>,
    pub continent_code: Seq<char>,
    pub tld: Seq<char>,
    pub language_codes: Seq<Seq<char>>,
    pub geoname_id: Option<i64>,
    pub display_name: Seq<char>,
}

impl View for Country {
    type V = CountryV;

    open spec fn view(&self) -> CountryV {
        CountryV {
            dial_codes: cells_view(self.dial_codes@),
            iso3: self.iso3@,
            iso_num: self.iso_num,
            iso2: self.iso2@,
            currency_name: self.currency_name@,
            currency_code: self.currency_code@,
            name: self.name@,
            region: self.region@,
            capital: self.capital@,
            continent_code: self.continent_code@,
            tld: self.tld@,
            language_codes: cells_view(self.language_codes@),
            geoname_id: self.geoname_id,
            display_name: self.display_name@,
        }
    }
}

/// A row has every required column iff it reaches the last one, at
/// position 54.
pub open spec fn row_ok(row: Seq<Seq<char>>) -> bool {
    row.len() >= 55
}

/// The record that a well-formed row denotes.
pub open spec fn country_of_row(row: Seq<Seq<char>>) -> CountryV
    recommends
        row_ok(row),
{
    CountryV {
        dial_codes: split_commas(row[1]),
        iso3: row[2],
        iso_num: parse_i32_spec(row[5]),
        iso2: row[9],
        currency_name: row[18],
        currency_code: row[25],
        name: row[41],
        region: row[44],
        capital: row[49],
        continent_code: row[50],
        tld: row[51],
        language_codes: split_commas(row[52]),
        geoname_id: parse_i64_spec(row[53]),
        display_name: row[54],
    }
}

/// The cell at `index`, required: a missing cell is a hard error.
pub fn record_to_string(record: &Vec<String>, index: usize) -> (r: Result<String, GDErr>)
    ensures
        (match r {
            Ok(s) => index < record@.len() && s@ == record@[index as int]@,
            Err(e) => index >= record@.len() && (e matches GDErr::GenericErr(msg) && msg@
                == "failed to convert to string"@),
        }),
{
    if index < record.len() {
        Ok(record[index].clone())
    } else {
        Err(GDErr::GenericErr(String::from_str("failed to convert to string")))
    }
}

/// The cell at `index` as an `i32`; an absent or unparsable cell is
/// `None`, never an error.
pub fn record_to_i32(record: &Vec<String>, index: usize) -> (r: Option<i32>)
    ensures
        r == (if index < record@.len() {
            parse_i32_spec(record@[index as int]@)
        } else {
            None::<i32>
        }),
{
    if index < record.len() {
        parse_i32_chars(record[index].as_str())
    } else {
        None
    }
}

/// The cell at `index` as an `i64`; an absent or unparsable cell is
/// `None`, never an error.
pub fn record_to_i64(record: &Vec<String>, index: usize) -> (r: Option<i64>)
    ensures
        r == (if index < record@.len() {
            parse_i64_spec(record@[index as int]@)
        } else {
            None::<i64>
        }),
{
    if index < record.len() {
        parse_i64_chars(record[index].as_str())
    } else {
        None
    }
}

/// The cell at `index` split on commas, required.
pub fn record_to_vec_string(record: &Vec<String>, index: usize) -> (r: Result<Vec<String>, GDErr>)
    ensures
        (match r {
            Ok(v) => index < record@.len() && cells_view(v@) == split_commas(
                record@[index as int]@,
            ),
            Err(e) => index >= record@.len() && (e matches GDErr::GenericErr(msg) && msg@
                == "failed to convert to string"@),
        }),
{
    if index < record.len() {
        Ok(split_on_commas(record[index].as_str()))
    } else {
        Err(GDErr::GenericErr(String::from_str("failed to convert to string")))
    }
}

/// Builds the record of one CSV row, reading each field from its fixed
/// column. A row that lacks a required column is a hard error; the two
/// numeric columns fall back to `None` instead.
pub fn row_to_country(record: &Vec<String>) -> (r: Result<Country, GDErr>)
    ensures
        (match r {
            Ok(c) => record@.len() >= 55 && c@ == country_of_row(cells_view(record@)),
            Err(e) => record@.len() < 55 && (e matches GDErr::GenericErr(_)),
        }),
{
    let dial_codes = match record_to_vec_string(record, 1) {
        Ok(v) => v,
        Err(e) => { return Err(e); },
    };
    let iso3 = match record_to_string(record, 2) {
        Ok(v) => v,
        Err(e) => { return Err(e); },
    };
    let iso_num = record_to_i32(record, 5);
    let iso2 = match record_to_string(record, 9) {
        Ok(v) => v,
        Err(e) => { return Err(e); },
    };
    let currency_name = match record_to_string(record, 18) {
        Ok(v) => v,
        Err(e) => { return Err(e); },
    };
    let currency_code = match record_to_string(record, 25) {
        Ok(v) => v,
        Err(e) => { return Err(e); },
    };
    let name = match record_to_string(record, 41) {
        Ok(v) => v,
        Err(e) => { return Err(e); },
    };
    let region = match record_to_string(record, 44) {
        Ok(v) => v,
        Err(e) => { return Err(e); },
    };
    let capital = match record_to_string(record, 49) {
        Ok(v) => v,
        Err(e) => { return Err(e); },
    };
    let continent_code = match record_to_string(record, 50) {
        Ok(v) => v,
        Err(e) => { return Err(e); },
    };
    let tld = match record_to_string(record, 51) {
        Ok(v) => v,
        Err(e) => { return Err(e); },
    };
    let language_codes = match record_to_vec_string(record, 52) {
        Ok(v) => v,
        Err(e) => { return Err(e); },
    };
    let geoname_id = record_to_i64(record, 53);
    let display_name = match record_to_string(record, 54) {
        Ok(v) => v,
        Err(e) => { return Err(e); },
    };
    let c = Country {
        dial_codes,
        iso3,
        iso_num,
        iso2,
        currency_name,
        currency_code,
        name,
        region,
        capital,
        continent_code,
        tld,
        language_codes,
        geoname_id,
        display_name,
    };
    Ok(c)
}

// ---------------------------------------------------------------------------
// The keyed table.
// ---------------------------------------------------------------------------

/// The map denoted by a list of records: each record binds its ISO2 key,
/// and a later record overwrites an earlier one with the same key.
pub open spec fn map_of(entries: Seq<Country>) -> Map<Seq<char>, CountryV>
    decreases entries.len(),
{
    if entries.len() == 0 {
        Map::empty()
    } else {
        map_of(entries.drop_last()).insert(entries.last()@.iso2, entries.last()@)
    }
}

/// The in-memory country table, keyed by ISO2 code. Records are kept in
/// insertion order; a later record with an already-bound key shadows the
/// earlier one, so the table denotes the map `map_of` of its records.
pub struct CountryTable {
    entries: Vec<Country>,
}

impl View for CountryTable {
    type V = Map<Seq<char>, CountryV>;

    closed spec fn view(&self) -> Map<Seq<char>, CountryV> {
        map_of(self.entries@)
    }
}

proof fn lemma_map_of_get(entries: Seq<Country>, key: Seq<char>, j: int)
    requires
        0 <= j < entries.len(),
        entries[j]@.iso2 == key,
        forall|l: int| j < l < entries.len() ==> #[trigger] entries[l]@.iso2 != key,
    ensures
        map_of(entries).contains_key(key),
        map_of(entries)[key] == entries[j]@,
    decreases entries.len(),
{
    if j < entries.len() - 1 {
        let prefix = entries.drop_last();
        assert(forall|l: int| j < l < prefix.len() ==> #[trigger] prefix[l]@.iso2 != key);
        lemma_map_of_get(prefix, key, j);
    }
}

proof fn lemma_map_of_absent(entries: Seq<Country>, key: Seq<char>)
    requires
        forall|l: int| 0 <= l < entries.len() ==> #[trigger] entries[l]@.iso2 != key,
    ensures
        !map_of(entries).contains_key(key),
    decreases entries.len(),
{
    if entries.len() > 0 {
        lemma_map_of_absent(entries.drop_last(), key);
    }
}

impl CountryTable {
    /// An empty table.
    pub fn new() -> (r: CountryTable)
        ensures
            r@ == Map::<Seq<char>, CountryV>::empty(),
    {
        CountryTable { entries: Vec::new() }
    }

    /// Binds `c` under its ISO2 key; an earlier record with that key is
    /// shadowed (last write wins).
    pub fn insert(&mut self, c: Country)
        ensures
            final(self)@ == old(self)@.insert(c@.iso2, c@),
    {
        let ghost e0 = self.entries@;
        self.entries.push(c);
        proof {
            assert(self.entries@.drop_last() =~= e0);
        }
    }

    /// Looks a record up by its ISO2 key.
    pub fn get(&self, iso2: &str) -> (r: Option<&Country>)
        ensures
            (match r {
                Some(c) => self@.contains_key(iso2@) && c@ == self@[iso2@],
                None => !self@.contains_key(iso2@),
            }),
    {
        let key: String = iso2.to_owned();
        let mut j: usize = self.entries.len();
        while j > 0
            invariant
                j <= self.entries@.len(),
                key@ == iso2@,
                forall|l: int|
                    j <= l < self.entries@.len() ==> #[trigger] self.entries@[l]@.iso2 != iso2@,
            decreases j,
        {
            j = j - 1;
            if self.entries[j].iso2 == key {
                proof {
                    lemma_map_of_get(self.entries@, iso2@, j as int);
                }
                return Some(&self.entries[j]);
            }
        }
        proof {
            lemma_map_of_absent(self.entries@, iso2@);
        }
        None
    }

    /// Hands the records out, in insertion order; they denote the same
    /// map as the table.
    pub fn into_records(self) -> (r: Vec<Country>)
        ensures
            map_of(r@) == self@,
    {
        self.entries
    }
}

// ---------------------------------------------------------------------------
// Loading the whole CSV.
// ---------------------------------------------------------------------------

/// Every row reaches the last required column.
pub open spec fn rows_ok(rows: Seq<Seq<Seq<char>>>) -> bool {
    forall|i: int| 0 <= i < rows.len() ==> row_ok(#[trigger] rows[i])
}

/// The table denoted by a list of rows, later rows overwriting earlier
/// ones that share an ISO2 key.
pub open spec fn table_of(rows: Seq<Seq<Seq<char>>>) -> Map<Seq<char>, CountryV>
    decreases rows.len(),
{
    if rows.len() == 0 {
        Map::empty()
    } else {
        table_of(rows.drop_last()).insert(
            country_of_row(rows.last()).iso2,
            country_of_row(rows.last()),
        )
    }
}

/// The record a row binds survives to the final table exactly when no
/// later row shares its ISO2 key: of rows that share a key, the last
/// one's record is the one retained.
pub proof fn lemma_later_row_retained(rows: Seq<Seq<Seq<char>>>, b: int)
    requires
        0 <= b < rows.len(),
        forall|l: int|
            b < l < rows.len() ==> country_of_row(#[trigger] rows[l]).iso2 != country_of_row(
                rows[b],
            ).iso2,
    ensures
        table_of(rows).contains_key(country_of_row(rows[b]).iso2),
        table_of(rows)[country_of_row(rows[b]).iso2] == country_of_row(rows[b]),
    decreases rows.len(),
{
    if b < rows.len() - 1 {
        let prefix = rows.drop_last();
        assert(forall|l: int|
            b < l < prefix.len() ==> country_of_row(#[trigger] prefix[l]).iso2 != country_of_row(
                prefix[b],
            ).iso2);
        lemma_later_row_retained(prefix, b);
    }
}

/// Builds the country table from parsed CSV rows. The first failing row
/// aborts the load; numeric cells never fail (they fall back to `None`).
pub fn rows_to_countries(rows: &Vec<Vec<String>>) -> (r: Result<CountryTable, GDErr>)
    ensures
        (match r {
            Ok(t) => rows_ok(rows_view(rows@)) && t@ == table_of(rows_view(rows@)),
            Err(e) => !rows_ok(rows_view(rows@)) && (e matches GDErr::GenericErr(_)),
        }),
{
    let mut table = CountryTable::new();
    let mut i: usize = 0;
    proof {
        assert(rows_view(rows@).take(0) =~= Seq::<Seq<Seq<char>>>::empty());
    }
    while i < rows.len()
        invariant
            i <= rows@.len(),
            forall|l: int| 0 <= l < i ==> row_ok(#[trigger] rows_view(rows@)[l]),
            table@ == table_of(rows_view(rows@).take(i as int)),
        decreases rows@.len() - i,
    {
        match row_to_country(&rows[i]) {
            Ok(c) => {
                proof {
                    assert(cells_view(rows@[i as int]@) == rows_view(rows@)[i as int]);
                    assert(rows_view(rows@).take(i as int + 1).drop_last() =~= rows_view(
                        rows@,
                    ).take(i as int));
                    assert(rows_view(rows@).take(i as int + 1).last() == rows_view(
                        rows@,
                    )[i as int]);
                }
                table.insert(c);
            },
            Err(e) => {
                proof {
                    assert(!row_ok(rows_view(rows@)[i as int]));
                }
                return Err(e);
            },
        }
        i = i + 1;
    }
    proof {
        assert(rows_view(rows@).take(i as int) =~= rows_view(rows@));
    }
    Ok(table)
}

/// What the CSV reader makes of a byte string: its records (the header
/// row excluded), or nothing where it rejects the input. The result
/// depends on the bytes alone.
pub uninterp spec fn csv_rows(bytes: Seq<u8>) -> Option<Seq<Seq<Seq<char>>>>;

/// Relies on csv::ReaderBuilder and csv::StringRecord: reading from an
/// in-memory byte slice parses records that depend on those bytes alone;
/// the first row is taken as a header and skipped; a malformed input (for
/// example, rows of uneven width) is an error.
#[verifier::external_body]
fn parse_csv(bytes: &Vec<u8>) -> (r: Result<Vec<Vec<String>>, GDErr>)
    ensures
        (match r {
            Ok(rows) => csv_rows(bytes@) == Some(rows_view(rows@)),
            Err(e) => csv_rows(bytes@) is None && (e matches GDErr::CSVErr(_)),
        }),
{
    let mut rdr = csv::ReaderBuilder::new().from_reader(bytes.as_slice());
    let mut rows: Vec<Vec<String>> = Vec::new();
    for rec in rdr.records() {
        match rec {
            Ok(r) => rows.push(r.iter().map(String::from).collect()),
            Err(e) => {
                return Err(GDErr::CSVErr(format!("{e}")));
            },
        }
    }
    Ok(rows)
}

/// Loads the country table from the bytes of the committed metadata CSV.
pub fn csv_to_countries(bytes: &Vec<u8>) -> (r: Result<CountryTable, GDErr>)
    ensures
        (match r {
            Ok(t) => (csv_rows(bytes@) matches Some(rows)) && rows_ok(csv_rows(bytes@)->Some_0)
                && t@ == table_of(csv_rows(bytes@)->Some_0),
            Err(e) => (match csv_rows(bytes@) {
                None => e matches GDErr::CSVErr(_),
                Some(rows) => !rows_ok(rows) && (e matches GDErr::GenericErr(_)),
            }),
        }),
{
    let rows = match parse_csv(bytes) {
        Ok(v) => v,
        Err(e) => { return Err(e); },
    };
    rows_to_countries(&rows)
}

} // verus!
