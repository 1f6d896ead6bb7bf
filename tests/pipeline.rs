use hanziscraper::crawl::{Config, Crawl, Step, DEFAULT_END_THRESHOLD};
use hanziscraper::error::ScrapeError;
use hanziscraper::ledger::Ledger;
use hanziscraper::number::{parse_u32, u32_text};
use hanziscraper::page::{process_page, Selectors};
use hanziscraper::record::{join_readings, resolve_pronunciation, CharacterRecord};
use hanziscraper::row::{parse_row, read_field, Cell, FieldOutcome, RowOutcome};

fn text(t: &str) -> Cell {
    Cell { text: Some(t.to_string()), link: None }
}

fn blank() -> Cell {
    Cell { text: None, link: None }
}

fn link(h: &str) -> Cell {
    Cell { text: None, link: Some(Some(h.to_string())) }
}

fn row(h: &str, hsk: Cell, gs: Cell, freq: Cell) -> Vec<Cell> {
    vec![link(h), text("zi"), text("word"), text("子"), text("6"), hsk, gs, freq]
}

fn html_row(h: &str, hsk: &str, gs: &str, freq: &str) -> String {
    format!(
        "<tr><td><a href=\"/c/{h}\">{h}</a></td><td>zì</td><td>word</td><td>子</td><td>6</td><td>{hsk}</td><td>{gs}</td><td>{freq}</td></tr>"
    )
}

fn page(rows: &[String]) -> String {
    format!("<html><body><table><tr><th>Character</th></tr>{}</table></body></html>", rows.concat())
}

#[test]
fn parse_u32_reads_plain_numbers() {
    assert_eq!(parse_u32("42"), Some(42));
    assert_eq!(parse_u32("0"), Some(0));
    assert_eq!(parse_u32("007"), Some(7));
    assert_eq!(parse_u32("+13"), Some(13));
    assert_eq!(parse_u32("4294967295"), Some(u32::MAX));
}

#[test]
fn parse_u32_rejects_malformed_text() {
    assert_eq!(parse_u32(""), None);
    assert_eq!(parse_u32("+"), None);
    assert_eq!(parse_u32("-1"), None);
    assert_eq!(parse_u32("4a"), None);
    assert_eq!(parse_u32(" 5"), None);
    assert_eq!(parse_u32("4294967296"), None);
    assert_eq!(parse_u32("99999999999999999999"), None);
}

#[test]
fn u32_text_writes_decimal() {
    assert_eq!(u32_text(0), "0");
    assert_eq!(u32_text(9), "9");
    assert_eq!(u32_text(10), "10");
    assert_eq!(u32_text(1234), "1234");
    assert_eq!(u32_text(u32::MAX), "4294967295");
}

#[test]
fn read_field_outcomes() {
    assert_eq!(read_field(&text("5"), Some(0)), FieldOutcome::Value(5));
    assert_eq!(read_field(&blank(), Some(0)), FieldOutcome::Value(0));
    assert_eq!(read_field(&blank(), None), FieldOutcome::Skip);
    assert_eq!(read_field(&text("x"), Some(0)), FieldOutcome::Fatal);
    assert_eq!(read_field(&text("x"), None), FieldOutcome::Fatal);
}

#[test]
fn valid_row_gives_fields() {
    let ledger = Ledger::new();
    match parse_row(&row("字", text("5"), text("13"), text("42")), &ledger) {
        RowOutcome::Fields(f) => {
            assert_eq!(f.hanzi, "字");
            assert_eq!(f.hsk_level, 5);
            assert_eq!(f.standard_index, 13);
            assert_eq!(f.frequency_rank, 42);
        }
        other => panic!("unexpected {:?}", other),
    }
}

#[test]
fn row_without_character_is_skipped() {
    let ledger = Ledger::new();
    let empty: Vec<Cell> = vec![];
    assert!(matches!(parse_row(&empty, &ledger), RowOutcome::Skip));
    let mut no_link = row("字", text("5"), text("13"), text("42"));
    no_link[0] = text("字");
    assert!(matches!(parse_row(&no_link, &ledger), RowOutcome::Skip));
    let mut no_text = row("字", text("5"), text("13"), text("42"));
    no_text[0] = Cell { text: None, link: Some(None) };
    assert!(matches!(parse_row(&no_text, &ledger), RowOutcome::Skip));
}

#[test]
fn row_without_standard_index_is_skipped() {
    let ledger = Ledger::new();
    assert!(matches!(parse_row(&row("字", text("5"), blank(), text("42")), &ledger), RowOutcome::Skip));
    let mut short = row("字", text("5"), text("13"), text("42"));
    short.truncate(6);
    assert!(matches!(parse_row(&short, &ledger), RowOutcome::Skip));
}

#[test]
fn blank_hsk_and_frequency_are_zero() {
    let ledger = Ledger::new();
    match parse_row(&row("字", blank(), text("13"), blank()), &ledger) {
        RowOutcome::Fields(f) => {
            assert_eq!(f.hsk_level, 0);
            assert_eq!(f.standard_index, 13);
            assert_eq!(f.frequency_rank, 0);
        }
        other => panic!("unexpected {:?}", other),
    }
}

#[test]
fn malformed_numbers_are_fatal() {
    let ledger = Ledger::new();
    assert!(matches!(
        parse_row(&row("字", text("five"), text("13"), text("42")), &ledger),
        RowOutcome::Fatal(ScrapeError::BadHskLevel)
    ));
    assert!(matches!(
        parse_row(&row("字", text("5"), text("x13"), text("42")), &ledger),
        RowOutcome::Fatal(ScrapeError::BadStandardIndex)
    ));
    assert!(matches!(
        parse_row(&row("字", text("5"), text("13"), text("4 2")), &ledger),
        RowOutcome::Fatal(ScrapeError::BadFrequencyRank)
    ));
}

#[test]
fn malformed_numbers_in_short_rows_are_fatal() {
    let ledger = Ledger::new();
    let mut six = row("字", text("five"), text("13"), text("42"));
    six.truncate(6);
    assert!(matches!(parse_row(&six, &ledger), RowOutcome::Fatal(ScrapeError::BadHskLevel)));
    let mut seven = row("字", text("5"), text("x13"), text("42"));
    seven.truncate(7);
    assert!(matches!(parse_row(&seven, &ledger), RowOutcome::Fatal(ScrapeError::BadStandardIndex)));
    let mut seven_ok = row("字", text("5"), text("13"), text("42"));
    seven_ok.truncate(7);
    assert!(matches!(parse_row(&seven_ok, &ledger), RowOutcome::Skip));
}

#[test]
fn seen_character_is_skipped_before_its_numbers() {
    let mut ledger = Ledger::new();
    ledger.record(&"字".to_string());
    assert!(matches!(
        parse_row(&row("字", text("five"), text("13"), text("42")), &ledger),
        RowOutcome::Skip
    ));
}

#[test]
fn ledger_holds_each_character_once() {
    let mut ledger = Ledger::new();
    assert_eq!(ledger.len(), 0);
    ledger.record(&"字".to_string());
    ledger.record(&"字".to_string());
    ledger.record(&"中".to_string());
    assert_eq!(ledger.len(), 2);
    assert!(ledger.contains(&"中".to_string()));
    assert!(!ledger.contains(&"国".to_string()));
}

#[test]
fn pronunciation_with_tone_marks() {
    assert_eq!(resolve_pronunciation(&"字".to_string()), Ok("zì".to_string()));
    let many = resolve_pronunciation(&"行".to_string()).unwrap();
    assert!(many.contains("xíng"));
    assert!(many.contains(", "));
}

#[test]
fn missing_pronunciation_is_fatal() {
    assert_eq!(resolve_pronunciation(&"".to_string()), Err(ScrapeError::NoReadings));
    assert_eq!(resolve_pronunciation(&"a".to_string()), Err(ScrapeError::NoReadings));
}

#[test]
fn readings_are_joined_with_comma() {
    assert_eq!(join_readings(&vec![]), "");
    assert_eq!(join_readings(&vec!["xíng".to_string()]), "xíng");
    assert_eq!(join_readings(&vec!["xíng".to_string(), "háng".to_string()]), "xíng, háng");
}

#[test]
fn record_line_has_seven_tab_separated_fields() {
    let r = CharacterRecord {
        hanzi: "发".to_string(),
        traditional: "發".to_string(),
        shinjitai: "発".to_string(),
        pronunciation: "fā, fà".to_string(),
        hsk_level: 1,
        standard_index: 310,
        frequency_rank: 0,
    };
    assert_eq!(r.to_line(), "发\t發\t発\tfā, fà\t1\t310\t0\n");
}

#[test]
fn selectors_read_table_cells() {
    let sel = Selectors::new().unwrap();
    let rows = sel.rows(&page(&[html_row("字", "5", "13", "42")]));
    assert_eq!(rows.len(), 2);
    assert_eq!(rows[0].len(), 0);
    assert_eq!(rows[1].len(), 8);
    assert_eq!(rows[1][0].link, Some(Some("字".to_string())));
    assert_eq!(rows[1][5].text, Some("5".to_string()));
    assert_eq!(rows[1][7].text, Some("42".to_string()));
    let blank_rows = sel.rows(&page(&[html_row("字", "", "13", "")]));
    assert_eq!(blank_rows[1][5].text, None);
    assert_eq!(blank_rows[1][5].link, None);
}

#[test]
fn single_row_page_gives_one_line() {
    let sel = Selectors::new().unwrap();
    let rows = sel.rows(&page(&[html_row("字", "5", "13", "42")]));
    let mut ledger = Ledger::new();
    let outcome = process_page(&rows, &mut ledger);
    assert_eq!(outcome.error, None);
    assert_eq!(outcome.pending.len(), 1);
    let pending = outcome.pending.into_iter().next().unwrap();
    let record = pending.into_record("字".to_string(), "字".to_string());
    assert_eq!(record.to_line(), "字\t字\t字\tzì\t5\t13\t42\n");
    assert_eq!(ledger.len(), 1);
}

#[test]
fn repeated_character_on_one_page_gives_one_record() {
    let rows = vec![
        row("字", text("5"), text("13"), text("42")),
        row("字", text("5"), text("13"), text("42")),
    ];
    let mut ledger = Ledger::new();
    let outcome = process_page(&rows, &mut ledger);
    assert_eq!(outcome.error, None);
    assert_eq!(outcome.pending.len(), 1);
}

#[test]
fn repeated_character_across_pages_gives_one_record() {
    let mut ledger = Ledger::new();
    let first = process_page(&vec![row("字", text("5"), text("13"), text("42"))], &mut ledger);
    let second = process_page(
        &vec![row("中", text("1"), text("2"), text("3")), row("字", text("5"), text("13"), text("42"))],
        &mut ledger,
    );
    assert_eq!(first.pending.len(), 1);
    assert_eq!(second.pending.len(), 1);
    assert_eq!(second.pending[0].fields.hanzi, "中");
    assert_eq!(ledger.len(), 2);
}

#[test]
fn fatal_row_stops_the_page() {
    let rows = vec![
        row("字", text("5"), text("13"), text("42")),
        row("中", text("bad"), text("2"), text("3")),
        row("国", text("1"), text("3"), text("4")),
    ];
    let mut ledger = Ledger::new();
    let outcome = process_page(&rows, &mut ledger);
    assert_eq!(outcome.error, Some(ScrapeError::BadHskLevel));
    assert_eq!(outcome.pending.len(), 1);
    assert!(!ledger.contains(&"国".to_string()));
}

#[test]
fn skipped_rows_do_not_stop_the_page() {
    let rows = vec![
        vec![text("header")],
        row("字", text("5"), blank(), text("42")),
        row("中", text("1"), text("2"), text("3")),
    ];
    let mut ledger = Ledger::new();
    let outcome = process_page(&rows, &mut ledger);
    assert_eq!(outcome.error, None);
    assert_eq!(outcome.pending.len(), 1);
    assert_eq!(outcome.pending[0].fields.hanzi, "中");
}

#[test]
fn character_without_readings_stops_the_page() {
    let rows = vec![row("a", text("5"), text("13"), text("42"))];
    let mut ledger = Ledger::new();
    let outcome = process_page(&rows, &mut ledger);
    assert_eq!(outcome.error, Some(ScrapeError::NoReadings));
    assert_eq!(outcome.pending.len(), 0);
}

#[test]
fn config_needs_one_path() {
    assert!(matches!(Config::new(&vec!["prog".to_string()]), Err(ScrapeError::WrongArgumentCount)));
    assert!(matches!(
        Config::new(&vec!["prog".to_string(), "a".to_string(), "b".to_string()]),
        Err(ScrapeError::WrongArgumentCount)
    ));
    let c = Config::new(&vec!["prog".to_string(), "out.tsv".to_string()]).unwrap();
    assert_eq!(c.output_file_path, "out.tsv");
    assert_eq!(c.base_urls.len(), 2);
    assert_eq!(c.starting_page, 1);
    assert_eq!(c.max_page, 101);
    assert_eq!(c.end_threshold, DEFAULT_END_THRESHOLD);
}

fn one_listing(start: u32, end: u32) -> Crawl {
    Crawl::new(Config::with_sources("out.tsv".to_string(), vec!["http://x/list?page=".to_string()], start, end))
}

#[test]
fn crawl_visits_each_page_then_ends() {
    let mut crawl = one_listing(1, 3);
    match crawl.next_step() {
        Step::Fetch { url, page } => {
            assert_eq!(url, "http://x/list?page=1");
            assert_eq!(page, 1);
        }
        Step::Done => panic!("no page"),
    }
    crawl.page_read();
    assert!(matches!(crawl.next_step(), Step::Fetch { page: 2, .. }));
    crawl.page_read();
    assert!(matches!(crawl.next_step(), Step::Done));
}

#[test]
fn failed_fetch_below_threshold_is_fatal() {
    let mut crawl = one_listing(1, 2);
    assert_eq!(crawl.fetch_failed(), Err(ScrapeError::FetchFailed));
    assert!(matches!(crawl.next_step(), Step::Fetch { page: 1, .. }));
}

#[test]
fn failed_fetch_above_threshold_ends_listing() {
    let mut crawl = one_listing(90, 91);
    assert_eq!(crawl.fetch_failed(), Ok(()));
    assert!(matches!(crawl.next_step(), Step::Done));
}

#[test]
fn failed_fetch_above_threshold_moves_to_next_listing() {
    let config = Config::with_sources(
        "out.tsv".to_string(),
        vec!["http://a/?p=".to_string(), "http://b/?p=".to_string()],
        83,
        100,
    );
    let mut crawl = Crawl::new(config);
    assert_eq!(crawl.fetch_failed(), Ok(()));
    match crawl.next_step() {
        Step::Fetch { url, page } => {
            assert_eq!(url, "http://b/?p=83");
            assert_eq!(page, 83);
        }
        Step::Done => panic!("second listing skipped"),
    }
    let mut strict = Crawl::new(Config::with_sources("o".to_string(), vec!["u".to_string()], 83, 100).with_end_threshold(90));
    assert_eq!(strict.fetch_failed(), Err(ScrapeError::FetchFailed));
}

#[test]
fn empty_page_range_is_done_at_once() {
    let crawl = one_listing(5, 5);
    assert!(matches!(crawl.next_step(), Step::Done));
}
