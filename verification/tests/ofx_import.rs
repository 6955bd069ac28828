use manila::import::ofx::{extract_tag, parse_ofx, parse_ofx_date};

// --- parse_ofx_date ---

#[test]
fn date_bare_eight_chars() {
    assert_eq!(parse_ofx_date("20260115").unwrap(), "2026-01-15");
}

#[test]
fn date_with_time() {
    assert_eq!(parse_ofx_date("20260115120000").unwrap(), "2026-01-15");
}

#[test]
fn date_with_tz_suffix() {
    assert_eq!(parse_ofx_date("20260120000000.000[-5:EST]").unwrap(), "2026-01-20");
}

#[test]
fn date_too_short_errors() {
    assert!(parse_ofx_date("2026").is_err());
}

#[test]
fn date_errors_quote_the_trimmed_text() {
    assert_eq!(parse_ofx_date(" 2026 ").unwrap_err(), "OFX date too short: \"2026\"");
    assert_eq!(parse_ofx_date("2026AB15").unwrap_err(), "OFX date has non-digit chars: \"2026AB15\"");
}

// --- OFX 1.x (SGML-style, uppercase tags, no closing leaf tags) ---

const OFX1_TWO_TXN: &str = "OFXHEADER:100\nDATA:OFXSGML\n\n\
    <OFX><BANKMSGSRSV1><STMTTRNRS><STMTRS><BANKTRANLIST>\
    <STMTTRN>\
    <TRNTYPE>DEBIT\
    <DTPOSTED>20260115120000\
    <TRNAMT>-45.67\
    <FITID>2026011501\
    <NAME>Grocery Store\
    </STMTTRN>\
    <STMTTRN>\
    <TRNTYPE>CREDIT\
    <DTPOSTED>20260120000000.000[-5:EST]\
    <TRNAMT>2000.00\
    <FITID>2026012001\
    <NAME>Paycheck\
    <MEMO>Direct Deposit\
    </STMTTRN>\
    </BANKTRANLIST></STMTRS></STMTTRNRS></BANKMSGSRSV1></OFX>";

#[test]
fn ofx1_parses_two_transactions() {
    let rows = parse_ofx(OFX1_TWO_TXN, "acct-1").unwrap();
    assert_eq!(rows.len(), 2);

    let r0 = rows[0].as_ref().unwrap();
    assert_eq!(r0.date, "2026-01-15");
    assert_eq!(r0.amount_cents, -4567);
    assert_eq!(r0.description, "Grocery Store");
    assert_eq!(r0.source_id.as_deref(), Some("ofx|acct-1|2026011501"));

    let r1 = rows[1].as_ref().unwrap();
    assert_eq!(r1.date, "2026-01-20");
    assert_eq!(r1.amount_cents, 200000);
    assert_eq!(r1.description, "Paycheck - Direct Deposit");
    assert_eq!(r1.source_id.as_deref(), Some("ofx|acct-1|2026012001"));
}

// --- OFX 2.x (XML, proper closing tags) ---

const OFX2_TWO_TXN: &str = "\
    <?xml version=\"1.0\" encoding=\"UTF-8\"?>\
    <?OFX OFXHEADER=\"200\"?>\
    <OFX><BANKMSGSRSV1><STMTTRNRS><STMTRS><BANKTRANLIST>\
    <STMTTRN>\
    <TRNTYPE>DEBIT</TRNTYPE>\
    <DTPOSTED>20260101120000.000[-5:EST]</DTPOSTED>\
    <TRNAMT>-32.10</TRNAMT>\
    <FITID>2026010101</FITID>\
    <NAME>Gas Station</NAME>\
    </STMTTRN>\
    <STMTTRN>\
    <TRNTYPE>CREDIT</TRNTYPE>\
    <DTPOSTED>20260115000000</DTPOSTED>\
    <TRNAMT>1500.00</TRNAMT>\
    <FITID>2026011501</FITID>\
    <NAME>Employer</NAME>\
    <MEMO>Salary payment</MEMO>\
    </STMTTRN>\
    </BANKTRANLIST></STMTRS></STMTTRNRS></BANKMSGSRSV1></OFX>";

#[test]
fn ofx2_parses_two_transactions() {
    let rows = parse_ofx(OFX2_TWO_TXN, "acct-2").unwrap();
    assert_eq!(rows.len(), 2);

    let r0 = rows[0].as_ref().unwrap();
    assert_eq!(r0.date, "2026-01-01");
    assert_eq!(r0.amount_cents, -3210);
    assert_eq!(r0.description, "Gas Station");
    assert_eq!(r0.source_id.as_deref(), Some("ofx|acct-2|2026010101"));

    let r1 = rows[1].as_ref().unwrap();
    assert_eq!(r1.date, "2026-01-15");
    assert_eq!(r1.amount_cents, 150000);
    assert_eq!(r1.description, "Employer - Salary payment");
    assert_eq!(r1.source_id.as_deref(), Some("ofx|acct-2|2026011501"));
}

// --- FITID fallback ---

#[test]
fn missing_fitid_uses_date_amount_desc_fallback() {
    let content = "<OFX><BANKTRANLIST>\
        <STMTTRN>\
        <DTPOSTED>20260310\
        <TRNAMT>-10.00\
        <NAME>Coffee Shop\
        </STMTTRN>\
        </BANKTRANLIST></OFX>";
    let rows = parse_ofx(content, "acct-3").unwrap();
    assert_eq!(rows.len(), 1);
    let r = rows[0].as_ref().unwrap();
    assert_eq!(r.source_id.as_deref(), Some("ofx|acct-3|2026-03-10|-1000|Coffee Shop"));
}

// --- Empty file ---

#[test]
fn no_stmttrn_blocks_returns_empty_vec() {
    let rows = parse_ofx("OFXHEADER:100\nDATA:OFXSGML\n<OFX></OFX>", "acct-4").unwrap();
    assert!(rows.is_empty());
}

// --- Memo appended only when different from name ---

#[test]
fn memo_same_as_name_not_appended() {
    let content = "<OFX><BANKTRANLIST>\
        <STMTTRN>\
        <DTPOSTED>20260310\
        <TRNAMT>-5.00\
        <FITID>abc\
        <NAME>Coffee\
        <MEMO>Coffee\
        </STMTTRN>\
        </BANKTRANLIST></OFX>";
    let rows = parse_ofx(content, "a").unwrap();
    assert_eq!(rows[0].as_ref().unwrap().description, "Coffee");
}

// --- own cases ---

#[test]
fn tags_are_found_without_regard_to_case_and_trimmed() {
    assert_eq!(extract_tag("<stmttrn><name>  Shop  <memo>x", "NAME").as_deref(), Some("Shop"));
    assert_eq!(extract_tag("<NAME></NAME>", "NAME"), None);
    assert_eq!(extract_tag("<MEMO>x", "NAME"), None);
    assert_eq!(extract_tag("<NAME>a<NAME>b", "NAME").as_deref(), Some("a"));
}

#[test]
fn rows_name_what_is_missing() {
    let content = "<STMTTRN><TRNAMT>1.00<NAME>x</STMTTRN>\
        <STMTTRN><DTPOSTED>20260101<NAME>x</STMTTRN>\
        <STMTTRN><DTPOSTED>20260101<TRNAMT>1.00</STMTTRN>\
        <STMTTRN><DTPOSTED>20260101<TRNAMT>abc<NAME>x</STMTTRN>";
    let rows = parse_ofx(content, "a").unwrap();
    assert_eq!(rows.len(), 4);
    assert_eq!(rows[0].as_ref().unwrap_err(), "missing DTPOSTED");
    assert_eq!(rows[1].as_ref().unwrap_err(), "missing TRNAMT");
    assert_eq!(rows[2].as_ref().unwrap_err(), "missing NAME and MEMO");
    assert_eq!(rows[3].as_ref().unwrap_err(), "cannot parse amount: \"abc\"");
}

#[test]
fn memo_alone_is_the_description_and_raw_json_keeps_the_fields() {
    let content = "<STMTTRN><DTPOSTED>20260101<TRNAMT>1.00<MEMO>Interest</STMTTRN>";
    let rows = parse_ofx(content, "a").unwrap();
    let r = rows[0].as_ref().unwrap();
    assert_eq!(r.description, "Interest");
    assert_eq!(r.raw_json, "{\"DTPOSTED\":\"20260101\",\"MEMO\":\"Interest\",\"TRNAMT\":\"1.00\"}");
}

#[test]
fn a_close_without_open_gives_no_row() {
    let content = "</STMTTRN><STMTTRN><STMTTRN><DTPOSTED>20260101<TRNAMT>2<NAME>n</STMTTRN>";
    let rows = parse_ofx(content, "a").unwrap();
    assert_eq!(rows.len(), 1);
    assert_eq!(rows[0].as_ref().unwrap().amount_cents, 200);
}

#[test]
fn a_date_whose_eighth_character_is_not_a_digit_is_an_error() {
    let e = parse_ofx_date("2026011\u{e9}1").unwrap_err();
    assert_eq!(e, "OFX date has non-digit chars: \"2026011\u{e9}1\"");
    assert_eq!(parse_ofx_date("202601\u{e9}").unwrap_err(), "OFX date has non-digit chars: \"202601\u{e9}\"");
    let rows = parse_ofx("<STMTTRN><DTPOSTED>2026011\u{e9}1<TRNAMT>1<NAME>n</STMTTRN>", "a").unwrap();
    assert_eq!(rows.len(), 1);
    assert!(rows[0].as_ref().unwrap_err().starts_with("OFX date has non-digit chars"));
}
