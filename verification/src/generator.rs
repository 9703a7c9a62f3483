use vstd::prelude::*;
use vstd::string::StringExecFns;
use crate::text::{spec_whitespace, char_whitespace, chars_vec, string_from_chars};

verus! {

// Extraction of the one SQL statement from raw model output: the output is
// split into lines, code-fence lines and blank lines are dropped, the rest
// is rejoined and trimmed, and the statement is read from between the
// `<sql>` and `</sql>` tags the prompt demands.

/// Index of the first line break, or the length when there is none.
pub open spec fn first_newline(s: Seq<char>) -> int
    decreases s.len(),
{
    if s.len() == 0 {
        0
    } else if s[0] == '\n' {
        0
    } else {
        1 + first_newline(s.drop_first())
    }
}

proof fn lemma_first_newline_unique(s: Seq<char>, k: int)
    requires
        0 <= k <= s.len(),
        forall|i: int| 0 <= i < k ==> s[i] != '\n',
        k < s.len() ==> s[k] == '\n',
    ensures
        first_newline(s) == k,
    decreases k,
{
    if s.len() == 0 {
    } else if s[0] == '\n' {
    } else {
        assert(forall|i: int| 0 <= i < k - 1 ==> s.drop_first()[i] == s[i + 1]);
        lemma_first_newline_unique(s.drop_first(), k - 1);
    }
}

/// A line with one trailing carriage return removed, as line splitting has it.
pub open spec fn strip_cr(l: Seq<char>) -> Seq<char> {
    if l.len() > 0 && l.last() == '\r' {
        l.drop_last()
    } else {
        l
    }
}

/// The lines of a text: split at line breaks, one trailing carriage return
/// per line removed, no empty line after a trailing line break.
pub open spec fn split_lines(s: Seq<char>) -> Seq<Seq<char>>
    decreases s.len(),
{
    if s.len() == 0 {
        Seq::empty()
    } else {
        let i = first_newline(s);
        if 0 <= i < s.len() {
            seq![strip_cr(s.subrange(0, i))] + split_lines(s.skip(i + 1))
        } else {
            seq![strip_cr(s)]
        }
    }
}

fn split_lines_exec(cs: &Vec<char>) -> (r: Vec<Vec<char>>)
    ensures
        r.deep_view() == split_lines(cs@),
{
    let n: usize = cs.len();
    let mut lines: Vec<Vec<char>> = Vec::new();
    let mut pos: usize = 0;
    proof {
        assert(cs@.skip(0) =~= cs@);
        assert(lines.deep_view() + split_lines(cs@) =~= split_lines(cs@));
    }
    while pos < n
        invariant
            0 <= pos <= n,
            n == cs@.len(),
            split_lines(cs@) == lines.deep_view() + split_lines(cs@.skip(pos as int)),
        decreases n - pos,
    {
        let ghost lines0 = lines.deep_view();
        let ghost t = cs@.skip(pos as int);
        // find the next line break
        let mut j: usize = pos;
        while j < n && cs[j] != '\n'
            invariant
                pos <= j <= n,
                n == cs@.len(),
                forall|i: int| pos <= i < j ==> cs@[i] != '\n',
            decreases n - j,
        {
            j = j + 1;
        }
        proof {
            assert(forall|i: int| 0 <= i < j - pos ==> t[i] == cs@[i + pos] && t[i] != '\n');
            if j < n {
                assert(t[j - pos] == cs@[j as int]);
            }
            lemma_first_newline_unique(t, j - pos);
        }
        // the line itself, with a trailing carriage return removed
        let mut endx: usize = j;
        if endx > pos && cs[endx - 1] == '\r' {
            endx = endx - 1;
        }
        let mut line: Vec<char> = Vec::new();
        let mut i: usize = pos;
        while i < endx
            invariant
                pos <= i <= endx,
                endx <= n,
                n == cs@.len(),
                line@ == cs@.subrange(pos as int, i as int),
            decreases endx - i,
        {
            let c: char = cs[i];
            line.push(c);
            proof {
                assert(cs@.subrange(pos as int, i as int).push(c) =~= cs@.subrange(
                    pos as int,
                    i + 1,
                ));
            }
            i = i + 1;
        }
        proof {
            if j < n {
                assert(t.subrange(0, (j - pos) as int) =~= cs@.subrange(pos as int, j as int));
                assert(line@ =~= strip_cr(t.subrange(0, (j - pos) as int)));
            } else {
                assert(t =~= cs@.subrange(pos as int, n as int));
                assert(line@ =~= strip_cr(t));
            }
        }
        lines.push(line);
        proof {
            if j < n {
                assert(t.skip((j - pos) + 1) =~= cs@.skip(j + 1));
                assert(split_lines(t) == seq![strip_cr(t.subrange(0, (j - pos) as int))]
                    + split_lines(cs@.skip(j + 1)));
                assert(lines.deep_view() =~~= lines0.push(line@));
                assert(lines0.push(line@) + split_lines(cs@.skip(j + 1)) =~= lines0 + split_lines(
                    t,
                ));
            } else {
                assert(split_lines(t) == seq![strip_cr(t)]);
                assert(lines.deep_view() =~~= lines0.push(line@));
                assert(cs@.skip(n as int) =~= Seq::<char>::empty());
                assert(split_lines(Seq::<char>::empty()) == Seq::<Seq<char>>::empty());
                assert(lines0.push(line@) + split_lines(cs@.skip(n as int)) =~= lines0
                    + split_lines(t));
            }
        }
        pos = if j < n {
            j + 1
        } else {
            n
        };
    }
    proof {
        assert(cs@.skip(n as int) =~= Seq::<char>::empty());
        assert(split_lines(Seq::<char>::empty()) == Seq::<Seq<char>>::empty());
        assert(lines.deep_view() + Seq::<Seq<char>>::empty() =~= lines.deep_view());
    }
    lines
}

/// A line consisting of whitespace alone (an empty one included).
pub open spec fn blank_line(l: Seq<char>) -> bool {
    forall|i: int| 0 <= i < l.len() ==> spec_whitespace(#[trigger] l[i])
}

/// A markdown code-fence line.
pub open spec fn fence_line(l: Seq<char>) -> bool {
    l.len() >= 3 && l[0] == '`' && l[1] == '`' && l[2] == '`'
}

pub open spec fn keep_line(l: Seq<char>) -> bool {
    !fence_line(l) && !blank_line(l)
}

/// The line filter, as one value so that every use names the same predicate.
pub open spec fn keep_pred() -> spec_fn(Seq<char>) -> bool {
    |l: Seq<char>| keep_line(l)
}

fn keep_line_exec(l: &Vec<char>) -> (r: bool)
    ensures
        r == keep_line(l@),
{
    let n: usize = l.len();
    if n >= 3 {
        if l[0] == '`' && l[1] == '`' && l[2] == '`' {
            return false;
        }
    }
    let mut i: usize = 0;
    while i < n
        invariant
            0 <= i <= n,
            n == l@.len(),
            !fence_line(l@),
            forall|k: int| 0 <= k < i ==> spec_whitespace(#[trigger] l@[k]),
        decreases n - i,
    {
        if !char_whitespace(l[i]) {
            return true;
        }
        i = i + 1;
    }
    false
}

fn filter_lines(lines: Vec<Vec<char>>) -> (r: Vec<Vec<char>>)
    ensures
        r.deep_view() == lines.deep_view().filter(keep_pred()),
{
    let ghost all = lines.deep_view();
    let mut out: Vec<Vec<char>> = Vec::new();
    let mut rest = lines;
    let ghost done = Seq::<Seq<char>>::empty();
    proof {
        reveal_with_fuel(Seq::filter, 2);
        assert(done + rest.deep_view() =~~= all);
        assert(out.deep_view() =~~= done.filter(keep_pred()));
    }
    while rest.len() > 0
        invariant
            done + rest.deep_view() == all,
            out.deep_view() == done.filter(keep_pred()),
        decreases rest@.len(),
    {
        let ghost done0 = done;
        let ghost out0 = out.deep_view();
        let l = rest.remove(0);
        let keep = keep_line_exec(&l);
        proof {
            reveal_with_fuel(Seq::filter, 2);
            let single = seq![l@];
            assert(done0 + single =~~= done0.push(l@));
            Seq::<Seq<char>>::filter_distributes_over_add(done0, single, keep_pred());
            assert(single.drop_last() =~= Seq::<Seq<char>>::empty());
            if keep {
                assert(single.filter(keep_pred()) =~= seq![l@]);
            } else {
                assert(single.filter(keep_pred()) =~= Seq::<Seq<char>>::empty());
            }
        }
        if keep {
            out.push(l);
            proof {
                assert(out.deep_view() =~~= out0.push(l@));
                assert(out0.push(l@) =~~= done0.push(l@).filter(keep_pred()));
            }
        } else {
            proof {
                assert(out.deep_view() =~~= done0.push(l@).filter(keep_pred()));
            }
        }
        proof {
            done = done0.push(l@);
            assert(done + rest.deep_view() =~~= all);
        }
    }
    proof {
        assert(rest.deep_view() =~= Seq::<Seq<char>>::empty());
        assert(done =~~= all);
    }
    out
}

/// Lines joined back into one text with single line breaks between them.
pub open spec fn join_lines(ls: Seq<Seq<char>>) -> Seq<char>
    decreases ls.len(),
{
    if ls.len() == 0 {
        Seq::empty()
    } else if ls.len() == 1 {
        ls[0]
    } else {
        join_lines(ls.drop_last()) + seq!['\n'] + ls.last()
    }
}

fn join_lines_exec(lines: &Vec<Vec<char>>) -> (r: Vec<char>)
    ensures
        r@ == join_lines(lines.deep_view()),
{
    let ghost all = lines.deep_view();
    let n: usize = lines.len();
    let mut out: Vec<char> = Vec::new();
    let mut k: usize = 0;
    proof {
        assert(all.subrange(0, 0) =~= Seq::<Seq<char>>::empty());
    }
    while k < n
        invariant
            0 <= k <= n,
            n == all.len(),
            all == lines.deep_view(),
            out@ == join_lines(all.subrange(0, k as int)),
        decreases n - k,
    {
        let ghost out0 = out@;
        if k > 0 {
            out.push('\n');
        }
        let line = &lines[k];
        let m: usize = line.len();
        let ghost mid = out@;
        let mut i: usize = 0;
        while i < m
            invariant
                0 <= i <= m,
                m == line@.len(),
                out@ == mid + line@.subrange(0, i as int),
            decreases m - i,
        {
            let c: char = line[i];
            out.push(c);
            proof {
                assert(mid + line@.subrange(0, i as int).push(c) =~= mid + line@.subrange(
                    0,
                    i + 1,
                ));
            }
            i = i + 1;
        }
        proof {
            assert(line@.subrange(0, m as int) =~= line@);
            assert(line@ =~= all[k as int]);
            let pre = all.subrange(0, k as int);
            let now = all.subrange(0, k + 1);
            assert(now.drop_last() =~= pre);
            assert(now.last() == all[k as int]);
            if k == 0 {
                assert(out@ =~= all[0]);
            } else {
                assert(out@ =~= join_lines(pre) + seq!['\n'] + all[k as int]);
            }
        }
        k = k + 1;
    }
    proof {
        assert(all.subrange(0, n as int) =~= all);
    }
    out
}

/// The text with leading whitespace removed.
pub open spec fn trim_start(s: Seq<char>) -> Seq<char>
    decreases s.len(),
{
    if s.len() > 0 && spec_whitespace(s[0]) {
        trim_start(s.drop_first())
    } else {
        s
    }
}

/// The text with trailing whitespace removed.
pub open spec fn trim_end(s: Seq<char>) -> Seq<char>
    decreases s.len(),
{
    if s.len() > 0 && spec_whitespace(s.last()) {
        trim_end(s.drop_last())
    } else {
        s
    }
}

pub open spec fn trim_spec(s: Seq<char>) -> Seq<char> {
    trim_end(trim_start(s))
}

proof fn lemma_trim_start_at(s: Seq<char>, a: int)
    requires
        0 <= a <= s.len(),
        forall|i: int| 0 <= i < a ==> spec_whitespace(#[trigger] s[i]),
        a < s.len() ==> !spec_whitespace(s[a]),
    ensures
        trim_start(s) == s.skip(a),
    decreases a,
{
    if a == 0 {
        assert(s.skip(0) =~= s);
    } else {
        let t = s.drop_first();
        assert(forall|i: int| 0 <= i < a - 1 ==> t[i] == s[i + 1]);
        lemma_trim_start_at(t, a - 1);
        assert(t.skip(a - 1) =~= s.skip(a));
    }
}

proof fn lemma_trim_end_at(s: Seq<char>, b: int)
    requires
        0 <= b <= s.len(),
        forall|i: int| b <= i < s.len() ==> spec_whitespace(#[trigger] s[i]),
        b > 0 ==> !spec_whitespace(s[b - 1]),
    ensures
        trim_end(s) == s.subrange(0, b),
    decreases s.len() - b,
{
    if b == s.len() {
        if s.len() > 0 {
            assert(!spec_whitespace(s.last()));
        }
        assert(s.subrange(0, b) =~= s);
    } else {
        let t = s.drop_last();
        assert(spec_whitespace(s.last()));
        assert(forall|i: int| b <= i < t.len() ==> t[i] == s[i]);
        lemma_trim_end_at(t, b);
        assert(t.subrange(0, b) =~= s.subrange(0, b));
    }
}

fn trim_exec(v: &Vec<char>) -> (r: Vec<char>)
    ensures
        r@ == trim_spec(v@),
{
    let n: usize = v.len();
    let mut a: usize = 0;
    while a < n && char_whitespace(v[a])
        invariant
            0 <= a <= n,
            n == v@.len(),
            forall|i: int| 0 <= i < a ==> spec_whitespace(#[trigger] v@[i]),
        decreases n - a,
    {
        a = a + 1;
    }
    let mut b: usize = n;
    while b > a && char_whitespace(v[b - 1])
        invariant
            a <= b <= n,
            n == v@.len(),
            forall|i: int| b <= i < n ==> spec_whitespace(#[trigger] v@[i]),
        decreases b,
    {
        b = b - 1;
    }
    proof {
        lemma_trim_start_at(v@, a as int);
        let t = v@.skip(a as int);
        assert(forall|i: int|
            b - a <= i < t.len() ==> t[i] == v@[i + a] && spec_whitespace(t[i]));
        lemma_trim_end_at(t, b - a);
        assert(t.subrange(0, b - a) =~= v@.subrange(a as int, b as int));
    }
    let mut out: Vec<char> = Vec::new();
    let mut i: usize = a;
    while i < b
        invariant
            a <= i <= b,
            b <= n,
            n == v@.len(),
            out@ == v@.subrange(a as int, i as int),
        decreases b - i,
    {
        let c: char = v[i];
        out.push(c);
        proof {
            assert(v@.subrange(a as int, i as int).push(c) =~= v@.subrange(a as int, i + 1));
        }
        i = i + 1;
    }
    out
}

/// The opening tag the prompt demands around the statement.
pub open spec fn open_tag() -> Seq<char> {
    seq!['<', 's', 'q', 'l', '>']
}

/// The closing tag.
pub open spec fn close_tag() -> Seq<char> {
    seq!['<', '/', 's', 'q', 'l', '>']
}

/// Model output after line filtering, rejoining and trimming: the text the
/// tags are looked for in.
pub open spec fn cleaned_output(s: Seq<char>) -> Seq<char> {
    trim_spec(join_lines(split_lines(s).filter(keep_pred())))
}

pub open spec fn has_open_tag(c: Seq<char>) -> bool {
    c.len() >= 5 && c.subrange(0, 5) == open_tag()
}

pub open spec fn body_after_open(c: Seq<char>) -> Seq<char> {
    c.skip(5)
}

pub open spec fn has_close_tag(u: Seq<char>) -> bool {
    u.len() >= 6 && u.subrange(u.len() - 6, u.len() as int) == close_tag()
}

/// The statement text between the tags.
pub open spec fn tagged_sql(c: Seq<char>) -> Seq<char> {
    body_after_open(c).subrange(0, body_after_open(c).len() - 6)
}

/// Why no statement could be extracted or accepted.
#[derive(Clone, Copy, Debug, PartialEq, Eq, Structural)]
pub enum SqlGenError {
    /// The cleaned output does not begin with the opening tag.
    MissingOpeningTag,
    /// The opening tag is there, but the closing tag does not end the output.
    MissingClosingTag,
    /// The extracted text is not valid SQL.
    InvalidSyntax,
    /// The extracted text parsed to a number of statements other than one.
    NotSingleStatement,
}

/// Pull the one SQL statement's text out of raw model output: drop
/// code-fence and blank lines, rejoin and trim the rest, and take what
/// stands between the `<sql>` and `</sql>` tags.
pub fn extract_sql(output: &str) -> (r: Result<String, SqlGenError>)
    ensures
        ({
            let c = cleaned_output(output@);
            &&& (has_open_tag(c) && has_close_tag(body_after_open(c))) ==> (r matches Ok(t)
                && t@ == tagged_sql(c))
            &&& !has_open_tag(c) ==> r == Err::<String, SqlGenError>(
                SqlGenError::MissingOpeningTag,
            )
            &&& (has_open_tag(c) && !has_close_tag(body_after_open(c))) ==> r == Err::<
                String,
                SqlGenError,
            >(SqlGenError::MissingClosingTag)
        }),
{
    let cs = chars_vec(output);
    let lines = split_lines_exec(&cs);
    let kept = filter_lines(lines);
    let joined = join_lines_exec(&kept);
    let t = trim_exec(&joined);
    let ghost c = cleaned_output(output@);
    proof {
        assert(t@ == c);
    }
    let tn: usize = t.len();
    if !(tn >= 5 && t[0] == '<' && t[1] == 's' && t[2] == 'q' && t[3] == 'l' && t[4] == '>') {
        proof {
            if has_open_tag(c) {
                assert(c.subrange(0, 5)[0] == c[0]);
                assert(c.subrange(0, 5)[1] == c[1]);
                assert(c.subrange(0, 5)[2] == c[2]);
                assert(c.subrange(0, 5)[3] == c[3]);
                assert(c.subrange(0, 5)[4] == c[4]);
            }
        }
        return Err(SqlGenError::MissingOpeningTag);
    }
    proof {
        assert(c.subrange(0, 5) =~= open_tag());
    }
    if !(tn >= 11 && t[tn - 6] == '<' && t[tn - 5] == '/' && t[tn - 4] == 's' && t[tn - 3] == 'q'
        && t[tn - 2] == 'l' && t[tn - 1] == '>') {
        proof {
            let u = body_after_open(c);
            if has_close_tag(u) {
                assert(u.len() == tn - 5);
                assert(forall|i: int|
                    0 <= i < 6 ==> #[trigger] u.subrange(u.len() - 6, u.len() as int)[i] == c[tn
                        - 6 + i]);
            }
        }
        return Err(SqlGenError::MissingClosingTag);
    }
    proof {
        let u = body_after_open(c);
        assert(u.len() == tn - 5 >= 6);
        assert(u.subrange(u.len() - 6, u.len() as int) =~= close_tag());
    }
    let mut out: Vec<char> = Vec::new();
    let mut i: usize = 5;
    while i < tn - 6
        invariant
            5 <= i <= tn - 6,
            tn >= 11,
            tn == t@.len(),
            out@ == t@.subrange(5, i as int),
        decreases tn - 6 - i,
    {
        let ch: char = t[i];
        out.push(ch);
        proof {
            assert(t@.subrange(5, i as int).push(ch) =~= t@.subrange(5, i + 1));
        }
        i = i + 1;
    }
    proof {
        assert(out@ =~= t@.subrange(5, (tn - 6) as int));
        assert(t@.subrange(5, (tn - 6) as int) =~= tagged_sql(c));
    }
    Ok(string_from_chars(&out))
}

/// The instruction text that precedes the schema.
pub const PROMPT_PREFIX: &'static str = "\nYou are an expert SQL query generator that converts natural language to SQL.\n\n<schema>";

/// The text between the schema and the question.
pub const PROMPT_BETWEEN: &'static str = "</schema>\n\n<question>";

/// The instruction text that follows the question.
pub const PROMPT_SUFFIX: &'static str = "</question>\n\nBased on the schema, generate the most efficient SQL query that answers the question.\nYou can only reference tables and columns outlined in the schema!\nOutput SQL must be postgres compliant.\n\nOutput your response in this exact format:\n\n<sql>\n[OUTPUT SQL QUERY]\n</sql>\n";

/// The full prompt handed to the model for one question against one schema.
pub open spec fn prompt_text(question: Seq<char>, schema: Seq<char>) -> Seq<char> {
    PROMPT_PREFIX@ + schema + PROMPT_BETWEEN@ + question + PROMPT_SUFFIX@
}

/// Instantiate the prompt template with the question and the schema.
pub fn build_prompt(question: &str, schema: &str) -> (r: String)
    ensures
        r@ == prompt_text(question@, schema@),
{
    let mut out: String = PROMPT_PREFIX.to_owned();
    out.append(schema);
    out.append(PROMPT_BETWEEN);
    out.append(question);
    out.append(PROMPT_SUFFIX);
    proof {
        assert(out@ =~= prompt_text(question@, schema@));
    }
    out
}

#[verifier::external_type_specification]
#[verifier::external_body]
pub struct ExStatement(sqlparser::ast::Statement);

/// What PostgreSQL parsing makes of a text: how many statements it parses
/// to, or nothing when it is not valid SQL of that dialect. The parse is a
/// function of the text alone; the statements themselves stay opaque.
pub uninterp spec fn postgres_statement_count(s: Seq<char>) -> Option<int>;

/// How a parse outcome relates to what parsing makes of the text: success
/// hands back exactly the statements counted, failure reports invalid
/// syntax and happens exactly when the text has no statement count.
pub open spec fn parse_outcome_matches(
    s: Seq<char>,
    r: Result<Vec<sqlparser::ast::Statement>, SqlGenError>,
) -> bool {
    match r {
        Ok(v) => postgres_statement_count(s) == Some(v@.len() as int),
        Err(e) => postgres_statement_count(s) is None && e == SqlGenError::InvalidSyntax,
    }
}

/// Relies on sqlparser's Parser::parse_sql with the PostgreSQL dialect: the
/// statements the text parses to, `Err` exactly when it is not valid SQL of
/// that dialect.
#[verifier::external_body]
fn parse_postgres(sql: &str) -> (r: Result<Vec<sqlparser::ast::Statement>, SqlGenError>)
    ensures
        parse_outcome_matches(sql@, r),
        r is Ok == (postgres_statement_count(sql@) is Some),
{
    match sqlparser::parser::Parser::parse_sql(&sqlparser::dialect::PostgreSqlDialect {}, sql) {
        Ok(v) => Ok(v),
        Err(_) => Err(SqlGenError::InvalidSyntax),
    }
}

/// Accept a parse result only when it is exactly one statement.
pub fn single_statement(v: Vec<sqlparser::ast::Statement>) -> (r: Result<
    sqlparser::ast::Statement,
    SqlGenError,
>)
    ensures
        v@.len() == 1 ==> (r matches Ok(s) && s == v@[0]),
        v@.len() != 1 ==> r == Err::<sqlparser::ast::Statement, SqlGenError>(
            SqlGenError::NotSingleStatement,
        ),
{
    let mut v = v;
    if v.len() == 1 {
        match v.pop() {
            Some(s) => Ok(s),
            None => Err(SqlGenError::NotSingleStatement),
        }
    } else {
        Err(SqlGenError::NotSingleStatement)
    }
}

/// Parse extracted text and demand exactly one statement, as the prompt
/// asked the model for: success exactly when the text is PostgreSQL that
/// parses to one statement.
pub fn parse_single_statement(sql: &str) -> (r: Result<sqlparser::ast::Statement, SqlGenError>)
    ensures
        r is Ok <==> postgres_statement_count(sql@) == Some(1int),
        r == Err::<sqlparser::ast::Statement, SqlGenError>(SqlGenError::InvalidSyntax)
            <==> postgres_statement_count(sql@) is None,
        r == Err::<sqlparser::ast::Statement, SqlGenError>(SqlGenError::NotSingleStatement)
            <==> (postgres_statement_count(sql@) matches Some(n) && n != 1),
{
    match parse_postgres(sql) {
        Ok(v) => single_statement(v),
        Err(e) => Err(e),
    }
}

/// The most units one SQL generation may consume before it is cut off.
pub const SQL_UNIT_BUDGET: u32 = 1024;

/// The decision state of one SQL generation: the output text collected so
/// far and the remaining unit budget. The host alternates model sampling
/// with these steps and stops when the model emits its end-of-generation
/// unit or the budget runs out; the collected text then goes through
/// `extract_sql` and the parser.
pub struct SqlSession {
    collected: Vec<char>,
    remaining: u32,
}

impl SqlSession {
    pub closed spec fn collected_view(&self) -> Seq<char> {
        self.collected@
    }

    pub closed spec fn remaining_spec(&self) -> u32 {
        self.remaining
    }

    pub fn new() -> (r: SqlSession)
        ensures
            r.collected_view() == Seq::<char>::empty(),
            r.remaining_spec() == SQL_UNIT_BUDGET,
    {
        SqlSession { collected: Vec::new(), remaining: SQL_UNIT_BUDGET }
    }

    /// Whether the budget admits another unit.
    pub fn can_continue(&self) -> (r: bool)
        ensures
            r == (self.remaining_spec() > 0),
    {
        self.remaining > 0
    }

    /// Account one sampled unit and append its decoded text to the output.
    pub fn push_chunk(&mut self, chunk: &str) -> (r: bool)
        requires
            old(self).remaining_spec() > 0,
        ensures
            final(self).collected_view() == old(self).collected_view() + chunk@,
            final(self).remaining_spec() == old(self).remaining_spec() - 1,
            r == (final(self).remaining_spec() > 0),
    {
        let cs = chars_vec(chunk);
        let ghost before = self.collected@;
        let n: usize = cs.len();
        let mut i: usize = 0;
        proof {
            assert(before + cs@.subrange(0, 0) =~= before);
        }
        while i < n
            invariant
                0 <= i <= n,
                n == cs@.len(),
                self.collected@ == before + cs@.subrange(0, i as int),
                self.remaining == old(self).remaining,
            decreases n - i,
        {
            let c: char = cs[i];
            self.collected.push(c);
            proof {
                assert((before + cs@.subrange(0, i as int)).push(c) =~= before + cs@.subrange(
                    0,
                    i + 1,
                ));
            }
            i = i + 1;
        }
        proof {
            assert(cs@.subrange(0, n as int) =~= cs@);
        }
        self.remaining = self.remaining - 1;
        self.remaining > 0
    }

    /// End the generation: extract the tagged statement text from everything
    /// collected and hold it to the parser, demanding exactly one statement.
    /// Success exactly when the cleaned output carries both tags and the
    /// text between them parses to one PostgreSQL statement; each error
    /// names the first condition that failed.
    pub fn finish(self) -> (r: Result<sqlparser::ast::Statement, SqlGenError>)
        ensures
            ({
                let c = cleaned_output(self.collected_view());
                &&& !has_open_tag(c) ==> r == Err::<sqlparser::ast::Statement, SqlGenError>(
                    SqlGenError::MissingOpeningTag,
                )
                &&& (has_open_tag(c) && !has_close_tag(body_after_open(c))) ==> r == Err::<
                    sqlparser::ast::Statement,
                    SqlGenError,
                >(SqlGenError::MissingClosingTag)
                &&& (has_open_tag(c) && has_close_tag(body_after_open(c))) ==> {
                    &&& (r is Ok <==> postgres_statement_count(tagged_sql(c)) == Some(1int))
                    &&& (r == Err::<sqlparser::ast::Statement, SqlGenError>(
                        SqlGenError::InvalidSyntax,
                    ) <==> postgres_statement_count(tagged_sql(c)) is None)
                    &&& (r == Err::<sqlparser::ast::Statement, SqlGenError>(
                        SqlGenError::NotSingleStatement,
                    ) <==> (postgres_statement_count(tagged_sql(c)) matches Some(n) && n != 1))
                }
            }),
    {
        let text = string_from_chars(&self.collected);
        match extract_sql(text.as_str()) {
            Ok(sql) => parse_single_statement(sql.as_str()),
            Err(e) => Err(e),
        }
    }
}

} // verus!
