use pgpt::generator::{
    build_prompt, extract_sql, parse_single_statement, SqlGenError, SqlSession, SQL_UNIT_BUDGET,
};
use pgpt::utils::{pick_device, DeviceKind};

#[test]
fn extract_strips_fences_blanks_and_tags() {
    let raw = "```sql\n<sql>\nSELECT 1\n</sql>\n```\n";
    assert_eq!(extract_sql(raw), Ok("\nSELECT 1\n".to_string()));
}

#[test]
fn extract_joins_kept_lines() {
    let raw = "<sql>SELECT *\nFROM users</sql>";
    assert_eq!(extract_sql(raw), Ok("SELECT *\nFROM users".to_string()));
}

#[test]
fn extract_trims_surrounding_whitespace() {
    let raw = "   <sql>SELECT 2</sql>   ";
    assert_eq!(extract_sql(raw), Ok("SELECT 2".to_string()));
}

#[test]
fn extract_handles_crlf_lines() {
    let raw = "```\r\n<sql>SELECT 3</sql>\r\n";
    assert_eq!(extract_sql(raw), Ok("SELECT 3".to_string()));
}

#[test]
fn extract_rejects_missing_opening_tag() {
    assert_eq!(
        extract_sql("SELECT 1</sql>"),
        Err(SqlGenError::MissingOpeningTag)
    );
    assert_eq!(extract_sql(""), Err(SqlGenError::MissingOpeningTag));
}

#[test]
fn extract_rejects_missing_closing_tag() {
    assert_eq!(
        extract_sql("<sql>SELECT 1"),
        Err(SqlGenError::MissingClosingTag)
    );
}

#[test]
fn extract_accepts_empty_statement_text() {
    assert_eq!(extract_sql("<sql></sql>"), Ok(String::new()));
}

#[test]
fn prompt_embeds_question_and_schema() {
    let question = "Find all users named henry";
    let schema = "CREATE TABLE users (id INT PRIMARY KEY, name TEXT);";
    let built = build_prompt(question, schema);
    let mut expected = String::new();
    expected.push_str(
        "\nYou are an expert SQL query generator that converts natural language to SQL.\n\n<schema>",
    );
    expected.push_str(schema);
    expected.push_str("</schema>\n\n<question>");
    expected.push_str(question);
    expected.push_str(
        "</question>\n\nBased on the schema, generate the most efficient SQL query that answers the question.\nYou can only reference tables and columns outlined in the schema!\nOutput SQL must be postgres compliant.\n\nOutput your response in this exact format:\n\n<sql>\n[OUTPUT SQL QUERY]\n</sql>\n",
    );
    assert_eq!(built, expected);
}

#[test]
fn parse_accepts_one_statement() {
    assert!(parse_single_statement("SELECT 1").is_ok());
}

#[test]
fn parse_rejects_invalid_sql() {
    assert_eq!(
        parse_single_statement("this is not sql at all ..."),
        Err(SqlGenError::InvalidSyntax)
    );
}

#[test]
fn parse_rejects_two_statements() {
    assert_eq!(
        parse_single_statement("SELECT 1; SELECT 2"),
        Err(SqlGenError::NotSingleStatement)
    );
}

#[test]
fn session_collects_chunks_and_finishes() {
    let mut s = SqlSession::new();
    assert!(s.can_continue());
    s.push_chunk("<sql>SELECT");
    s.push_chunk(" 42");
    s.push_chunk("</sql>");
    assert!(s.finish().is_ok());
}

#[test]
fn session_surfaces_extraction_errors() {
    let mut s = SqlSession::new();
    s.push_chunk("no tags here");
    assert_eq!(
        s.finish().map(|_| ()),
        Err(SqlGenError::MissingOpeningTag)
    );
}

#[test]
fn session_rejects_invalid_sql_between_tags() {
    let mut s = SqlSession::new();
    s.push_chunk("<sql>this is not sql at all ...</sql>");
    assert_eq!(s.finish().map(|_| ()), Err(SqlGenError::InvalidSyntax));
}

#[test]
fn session_rejects_two_statements_between_tags() {
    let mut s = SqlSession::new();
    s.push_chunk("<sql>SELECT 1; SELECT 2</sql>");
    assert_eq!(s.finish().map(|_| ()), Err(SqlGenError::NotSingleStatement));
}

#[test]
fn session_budget_counts_down() {
    let mut s = SqlSession::new();
    let mut n = 0u32;
    while s.can_continue() {
        s.push_chunk("x");
        n += 1;
        assert!(n <= SQL_UNIT_BUDGET);
    }
    assert_eq!(n, SQL_UNIT_BUDGET);
}

#[test]
fn device_choice_prefers_accelerators() {
    assert_eq!(pick_device(true, true, true), DeviceKind::Cpu);
    assert_eq!(pick_device(false, true, true), DeviceKind::Cuda);
    assert_eq!(pick_device(false, false, true), DeviceKind::Metal);
    assert_eq!(pick_device(false, false, false), DeviceKind::Cpu);
}
