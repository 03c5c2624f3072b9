use vstd::prelude::*;

use crate::api::{Agent, Fact, SearchResponse, ThinkResponse, TraceInfo};
use crate::text::{decimal, lemma_repeat_char, padded_right, push_decimal, push_padded_right, push_repeat, repeat, same_text};

verus! {

/// How a line of decorated output is colored.
#[derive(Debug, Clone, Copy, PartialEq, Eq, Structural)]
pub enum Tone {
    Plain,
    /// Secondary detail.
    Dim,
    /// A section title or table header.
    Heading,
    /// The answer of a think call.
    Answer,
    /// An opinion the agent formed.
    Opinion,
    /// A figure worth noticing.
    Figure,
    /// A finished action.
    Done,
    /// An action left to the service's background work.
    Pending,
    /// A record of the given kind.
    Record(FactKind),
}

/// The kinds of memory record that get their own decoration.
#[derive(Debug, Clone, Copy, PartialEq, Eq, Structural)]
pub enum FactKind {
    World,
    Agent,
    Opinion,
    Unknown,
}

/// One line of decorated output.
#[derive(Debug, Clone)]
pub struct Line {
    pub text: String,
    pub tone: Tone,
}

pub type LineView = (Seq<char>, Tone);

pub open spec fn lines_view(v: Seq<Line>) -> Seq<LineView> {
    v.map_values(|l: Line| (l.text@, l.tone))
}

pub open spec fn blank() -> LineView {
    (Seq::empty(), Tone::Plain)
}

pub open spec fn header_view(title: Seq<char>) -> Seq<LineView> {
    seq![blank(), ("━━━ "@ + title + " ━━━"@, Tone::Heading), blank()]
}

pub open spec fn kind_of(tag: Seq<char>) -> FactKind {
    if tag == "world"@ {
        FactKind::World
    } else if tag == "agent"@ {
        FactKind::Agent
    } else if tag == "opinion"@ {
        FactKind::Opinion
    } else {
        FactKind::Unknown
    }
}

pub open spec fn icon_of(kind: FactKind) -> Seq<char> {
    match kind {
        FactKind::World => "🌍"@,
        FactKind::Agent => "🤖"@,
        FactKind::Opinion => "💭"@,
        FactKind::Unknown => "📝"@,
    }
}

/// The uppercase form of a text, as Unicode defines it.
pub uninterp spec fn upper_of(s: Seq<char>) -> Seq<char>;

/// Relies on `str::to_uppercase`: its result depends on the characters of `s` alone.
#[verifier::external_body]
fn uppercase(s: &str) -> (r: String)
    ensures
        r@ == upper_of(s@),
{
    s.to_uppercase()
}

pub open spec fn tag_of(f: Fact) -> Seq<char> {
    match f.fact_type {
        Some(t) => t@,
        None => "unknown"@,
    }
}

pub open spec fn fact_head(f: Fact, show_activation: bool) -> Seq<char> {
    let tag = tag_of(f);
    icon_of(kind_of(tag)) + " ["@ + upper_of(tag) + "]"@ + match f.activation {
        Some(a) => if show_activation {
            " ("@ + a@ + ")"@
        } else {
            Seq::empty()
        },
        None => Seq::empty(),
    }
}

/// The lines of one record: its kind, its text, its context and date when
/// known, and a blank line.
pub open spec fn fact_view(f: Fact, show_activation: bool) -> Seq<LineView> {
    seq![(fact_head(f, show_activation), Tone::Record(kind_of(tag_of(f)))), ("  "@ + f.text@, Tone::Plain)]
        + match f.context {
        Some(c) => seq![("  Context: "@ + c@, Tone::Dim)],
        None => Seq::empty(),
    } + match f.event_date {
        Some(d) => seq![("  Date: "@ + d@, Tone::Dim)],
        None => Seq::empty(),
    } + seq![blank()]
}

/// The numbered records of a search, in order.
pub open spec fn results_view(facts: Seq<Fact>) -> Seq<LineView>
    decreases facts.len(),
{
    if facts.len() == 0 {
        Seq::empty()
    } else {
        results_view(facts.drop_last()) + seq![("  Result #"@ + decimal(facts.len()), Tone::Dim)]
            + fact_view(facts.last(), true)
    }
}

/// `name (n)`.
pub open spec fn count_title(name: Seq<char>, n: nat) -> Seq<char> {
    name + " ("@ + decimal(n) + ")"@
}

pub open spec fn signed_decimal(i: int) -> Seq<char> {
    if i < 0 {
        "-"@ + decimal((-i) as nat)
    } else {
        decimal(i as nat)
    }
}

pub open spec fn trace_view(t: TraceInfo) -> Seq<LineView> {
    header_view("Trace Information"@) + match t.total_time {
        Some(ms) => seq![("  ⏱️  Total time: "@ + ms@ + "ms"@, Tone::Figure)],
        None => Seq::empty(),
    } + match t.activation_count {
        Some(c) => seq![("  📊 Activation count: "@ + signed_decimal(c as int), Tone::Figure)],
        None => Seq::empty(),
    } + seq![blank()]
}

pub open spec fn search_view(r: SearchResponse, show_trace: bool) -> Seq<LineView> {
    let n = r.results@.len();
    header_view(count_title("Search Results"@, n)) + (if n == 0 {
        seq![("  No results found."@, Tone::Dim)]
    } else {
        results_view(r.results@)
    }) + match r.trace {
        Some(t) => if show_trace {
            trace_view(t)
        } else {
            Seq::empty()
        },
        None => Seq::empty(),
    }
}

pub open spec fn opinions_view(opinions: Seq<String>) -> Seq<LineView>
    decreases opinions.len(),
{
    if opinions.len() == 0 {
        Seq::empty()
    } else {
        opinions_view(opinions.drop_last()) + seq![("  💭 "@ + opinions.last()@, Tone::Opinion)]
    }
}

/// The line that counts the records an answer rests on.
pub open spec fn based_on_line(n: nat) -> Seq<char> {
    "  (Based on "@ + decimal(n) + " facts - use -o json to see details)"@
}

/// The decorated answer of a think call: the answer, how many records it
/// rests on (not the records), and the opinions formed.
pub open spec fn think_view(text: Seq<char>, based_on_count: nat, opinions: Seq<String>) -> Seq<
    LineView,
> {
    header_view("Answer"@) + seq![(text, Tone::Answer), blank()] + (if based_on_count > 0 {
        seq![(based_on_line(based_on_count), Tone::Dim), blank()]
    } else {
        Seq::empty()
    }) + (if opinions.len() > 0 {
        header_view(count_title("New opinions formed"@, opinions.len())) + opinions_view(opinions)
            + seq![blank()]
    } else {
        Seq::empty()
    })
}

/// The longest agent id, in characters.
pub open spec fn max_id_len(agents: Seq<Agent>) -> nat
    decreases agents.len(),
{
    if agents.len() == 0 {
        0
    } else {
        let rest = max_id_len(agents.drop_last());
        let last = agents.last().agent_id@.len();
        if last > rest {
            last
        } else {
            rest
        }
    }
}

/// The width of the id column: the longest id, and at least 8.
pub open spec fn id_column_width(agents: Seq<Agent>) -> nat {
    if max_id_len(agents) > 8 {
        max_id_len(agents)
    } else {
        8
    }
}

pub open spec fn border_view(left: Seq<char>, right: Seq<char>, width: nat) -> LineView {
    ("  "@ + left + repeat("─"@, width + 2) + right, Tone::Plain)
}

pub open spec fn agent_row(id: Seq<char>, width: nat) -> Seq<char> {
    "  │ "@ + padded_right(id, width) + " │"@
}

pub open spec fn rows_view(agents: Seq<Agent>, width: nat) -> Seq<LineView>
    decreases agents.len(),
{
    if agents.len() == 0 {
        Seq::empty()
    } else {
        rows_view(agents.drop_last(), width) + seq![(agent_row(agents.last().agent_id@, width), Tone::Plain)]
    }
}

/// The decorated agent listing: a bordered one-column table.
pub open spec fn agents_view(agents: Seq<Agent>) -> Seq<LineView> {
    let w = id_column_width(agents);
    header_view(count_title("Agents"@, agents.len())) + if agents.len() == 0 {
        seq![("  No agents found."@, Tone::Dim)]
    } else {
        seq![
            border_view("┌"@, "┐"@, w),
            ("  │ "@ + padded_right("Agent ID"@, w) + " │"@, Tone::Heading),
            border_view("├"@, "┤"@, w),
        ] + rows_view(agents, w) + seq![border_view("└"@, "┘"@, w), blank()]
    }
}

/// At most 60 characters of `content`: longer text is cut to 57 and marked
/// with an ellipsis.
pub open spec fn preview_text(content: Seq<char>) -> Seq<char> {
    if content.len() > 60 {
        content.subrange(0, 57) + "..."@
    } else {
        content
    }
}

pub open spec fn stored_view(doc_id: Seq<char>, content: Seq<char>, is_async: bool) -> Seq<LineView> {
    seq![
        if is_async {
            ("⏳ Queued for background processing"@, Tone::Pending)
        } else {
            ("✓ Stored successfully"@, Tone::Done)
        },
        ("  Document ID: "@ + doc_id, Tone::Plain),
        ("  Content: "@ + preview_text(content), Tone::Dim),
        blank(),
    ]
}

fn push_line(out: &mut Vec<Line>, text: String, tone: Tone)
    ensures
        lines_view(final(out)@) == lines_view(old(out)@).push((text@, tone)),
{
    let ghost t = text@;
    out.push(Line { text, tone });
    proof {
        assert(lines_view(final(out)@) =~= lines_view(old(out)@).push((t, tone)));
    }
}

fn push_text(out: &mut Vec<Line>, text: &str, tone: Tone)
    ensures
        lines_view(final(out)@) == lines_view(old(out)@).push((text@, tone)),
{
    push_line(out, String::from_str(text), tone);
}

fn push_blank(out: &mut Vec<Line>)
    ensures
        lines_view(final(out)@) == lines_view(old(out)@).push(blank()),
{
    push_line(out, String::new(), Tone::Plain);
    proof {
        assert(lines_view(final(out)@) =~= lines_view(old(out)@).push(blank()));
    }
}

fn push_header(out: &mut Vec<Line>, title: &str)
    ensures
        lines_view(final(out)@) == lines_view(old(out)@) + header_view(title@),
{
    push_blank(out);
    let mut s = String::from_str("━━━ ");
    s.append(title);
    s.append(" ━━━");
    push_line(out, s, Tone::Heading);
    push_blank(out);
    proof {
        assert(lines_view(final(out)@) =~= lines_view(old(out)@) + header_view(title@));
    }
}

/// A section title between blank lines.
pub fn section_header(title: &str) -> (r: Vec<Line>)
    ensures
        lines_view(r@) == header_view(title@),
{
    let mut out: Vec<Line> = Vec::new();
    push_header(&mut out, title);
    proof {
        assert(lines_view(out@) =~= header_view(title@));
    }
    out
}

/// The kind of a record with type tag `tag`.
pub fn fact_kind(tag: &str) -> (r: FactKind)
    ensures
        r == kind_of(tag@),
{
    if same_text(tag, "world") {
        FactKind::World
    } else if same_text(tag, "agent") {
        FactKind::Agent
    } else if same_text(tag, "opinion") {
        FactKind::Opinion
    } else {
        FactKind::Unknown
    }
}

/// The icon of a record kind.
pub fn fact_icon(kind: FactKind) -> (r: &'static str)
    ensures
        r@ == icon_of(kind),
{
    match kind {
        FactKind::World => "🌍",
        FactKind::Agent => "🤖",
        FactKind::Opinion => "💭",
        FactKind::Unknown => "📝",
    }
}

fn push_fact(out: &mut Vec<Line>, f: &Fact, show_activation: bool)
    ensures
        lines_view(final(out)@) == lines_view(old(out)@) + fact_view(*f, show_activation),
{
    let ghost start = lines_view(out@);
    let tag: &str = match &f.fact_type {
        Some(t) => t.as_str(),
        None => "unknown",
    };
    assert(tag@ == tag_of(*f));
    let kind = fact_kind(tag);
    let mut head = String::from_str(fact_icon(kind));
    head.append(" [");
    let upper = uppercase(tag);
    head.append(upper.as_str());
    head.append("]");
    if show_activation {
        if let Some(a) = &f.activation {
            head.append(" (");
            head.append(a.as_str());
            head.append(")");
        }
    }
    proof {
        assert(head@ =~= fact_head(*f, show_activation));
    }
    push_line(out, head, Tone::Record(kind));
    let mut body = String::from_str("  ");
    body.append(f.text.as_str());
    push_line(out, body, Tone::Plain);
    if let Some(c) = &f.context {
        let mut s = String::from_str("  Context: ");
        s.append(c.as_str());
        push_line(out, s, Tone::Dim);
    }
    if let Some(d) = &f.event_date {
        let mut s = String::from_str("  Date: ");
        s.append(d.as_str());
        push_line(out, s, Tone::Dim);
    }
    push_blank(out);
    proof {
        assert(lines_view(out@) =~= start + fact_view(*f, show_activation));
    }
}

/// The lines of one record.
pub fn fact_lines(f: &Fact, show_activation: bool) -> (r: Vec<Line>)
    ensures
        lines_view(r@) == fact_view(*f, show_activation),
{
    let mut out: Vec<Line> = Vec::new();
    push_fact(&mut out, f, show_activation);
    proof {
        assert(lines_view(out@) =~= fact_view(*f, show_activation));
    }
    out
}

fn push_count_title(s: &mut String, n: usize)
    ensures
        final(s)@ == old(s)@ + " ("@ + decimal(n as nat) + ")"@,
{
    s.append(" (");
    push_decimal(s, n as u64);
    s.append(")");
    proof {
        assert(final(s)@ =~= old(s)@ + " ("@ + decimal(n as nat) + ")"@);
    }
}

fn push_signed(s: &mut String, i: i32)
    ensures
        final(s)@ == old(s)@ + signed_decimal(i as int),
{
    if i < 0 {
        s.append("-");
        push_decimal(s, (-(i as i64)) as u64);
    } else {
        push_decimal(s, i as u64);
    }
    proof {
        assert(final(s)@ =~= old(s)@ + signed_decimal(i as int));
    }
}

/// The lines of a search's timing and activation figures.
pub fn trace_lines(t: &TraceInfo) -> (r: Vec<Line>)
    ensures
        lines_view(r@) == trace_view(*t),
{
    let mut out = section_header("Trace Information");
    if let Some(ms) = &t.total_time {
        let mut s = String::from_str("  ⏱️  Total time: ");
        s.append(ms.as_str());
        s.append("ms");
        push_line(&mut out, s, Tone::Figure);
    }
    if let Some(c) = t.activation_count {
        let mut s = String::from_str("  📊 Activation count: ");
        push_signed(&mut s, c);
        push_line(&mut out, s, Tone::Figure);
    }
    push_blank(&mut out);
    proof {
        assert(lines_view(out@) =~= trace_view(*t));
    }
    out
}

/// The decorated results of a search: a numbered entry per record, in the
/// order the service ranked them, and the trace when asked for.
pub fn search_lines(r: &SearchResponse, show_trace: bool) -> (lines: Vec<Line>)
    ensures
        lines_view(lines@) == search_view(*r, show_trace),
{
    let mut title = String::from_str("Search Results");
    let n = r.results.len();
    push_count_title(&mut title, n);
    let mut out = section_header(title.as_str());
    let ghost start = lines_view(out@);
    if n == 0 {
        push_text(&mut out, "  No results found.", Tone::Dim);
    } else {
        let mut i: usize = 0;
        while i < n
            invariant
                n == r.results@.len(),
                i <= n,
                lines_view(out@) == start + results_view(r.results@.subrange(0, i as int)),
            decreases n - i,
        {
            let mut s = String::from_str("  Result #");
            push_decimal(&mut s, (i + 1) as u64);
            push_line(&mut out, s, Tone::Dim);
            push_fact(&mut out, &r.results[i], true);
            proof {
                let next = r.results@.subrange(0, i + 1);
                assert(next.drop_last() =~= r.results@.subrange(0, i as int));
                assert(next.last() == r.results@[i as int]);
                assert(lines_view(out@) =~= start + results_view(next));
            }
            i = i + 1;
        }
        proof {
            assert(r.results@.subrange(0, n as int) =~= r.results@);
        }
    }
    let ghost body = lines_view(out@);
    if show_trace {
        if let Some(t) = &r.trace {
            let mut more = trace_lines(t);
            out.append(&mut more);
            proof {
                assert(lines_view(out@) =~= body + trace_view(*t));
            }
        }
    }
    proof {
        assert(lines_view(out@) =~= search_view(*r, show_trace));
    }
    out
}

/// The decorated answer of a think call. The records the answer rests on are
/// counted, not shown.
pub fn think_lines(r: &ThinkResponse) -> (lines: Vec<Line>)
    ensures
        lines_view(lines@) == think_view(r.text@, r.based_on@.len(), r.new_opinions@),
{
    let mut out = section_header("Answer");
    push_line(&mut out, r.text.clone(), Tone::Answer);
    push_blank(&mut out);
    let facts = r.based_on.len();
    if facts > 0 {
        let mut s = String::from_str("  (Based on ");
        push_decimal(&mut s, facts as u64);
        s.append(" facts - use -o json to see details)");
        push_line(&mut out, s, Tone::Dim);
        push_blank(&mut out);
    }
    let m = r.new_opinions.len();
    if m > 0 {
        let mut title = String::from_str("New opinions formed");
        push_count_title(&mut title, m);
        push_header(&mut out, title.as_str());
        let ghost mid = lines_view(out@);
        let mut i: usize = 0;
        while i < m
            invariant
                m == r.new_opinions@.len(),
                i <= m,
                lines_view(out@) == mid + opinions_view(r.new_opinions@.subrange(0, i as int)),
            decreases m - i,
        {
            let mut s = String::from_str("  💭 ");
            s.append(r.new_opinions[i].as_str());
            push_line(&mut out, s, Tone::Opinion);
            proof {
                let next = r.new_opinions@.subrange(0, i + 1);
                assert(next.drop_last() =~= r.new_opinions@.subrange(0, i as int));
                assert(lines_view(out@) =~= mid + opinions_view(next));
            }
            i = i + 1;
        }
        proof {
            assert(r.new_opinions@.subrange(0, m as int) =~= r.new_opinions@);
        }
        push_blank(&mut out);
    }
    proof {
        assert(lines_view(out@) =~= think_view(r.text@, r.based_on@.len(), r.new_opinions@));
    }
    out
}

/// The decorated output of a think call is the same for any two answers with
/// the same text, opinions and number of records: the records themselves are
/// never listed.
pub proof fn lemma_think_lines_hide_facts(a: ThinkResponse, b: ThinkResponse)
    requires
        a.text@ == b.text@,
        a.new_opinions@ == b.new_opinions@,
        a.based_on@.len() == b.based_on@.len(),
    ensures
        think_view(a.text@, a.based_on@.len(), a.new_opinions@) == think_view(
            b.text@,
            b.based_on@.len(),
            b.new_opinions@,
        ),
{
}

/// A line that cannot be a count line: empty, or not starting with a space,
/// or with something other than `(` in its third place.
pub open spec fn unlike_count_line(l: Seq<char>) -> bool {
    l.len() == 0 || l[0] != ' ' || (l.len() > 2 && l[2] != '(')
}

proof fn lemma_count_line_shape(n: nat)
    ensures
        based_on_line(n).len() > 2,
        based_on_line(n)[0] == ' ',
        based_on_line(n)[2] == '(',
        !unlike_count_line(based_on_line(n)),
{
    reveal_strlit("  (Based on ");
}

proof fn lemma_headers_unlike_count_line(title: Seq<char>)
    ensures
        forall|i: int| 0 <= i < 3 ==> unlike_count_line(#[trigger] header_view(title)[i].0),
{
    reveal_strlit("━━━ ");
    assert(header_view(title)[1].0[0] == '━');
}

proof fn lemma_opinions_unlike_count_line(opinions: Seq<String>)
    ensures
        opinions_view(opinions).len() == opinions.len(),
        forall|i: int|
            0 <= i < opinions.len() ==> unlike_count_line(#[trigger] opinions_view(opinions)[i].0),
    decreases opinions.len(),
{
    reveal_strlit("  💭 ");
    if opinions.len() > 0 {
        lemma_opinions_unlike_count_line(opinions.drop_last());
        let v = opinions_view(opinions);
        let last = ("  💭 "@ + opinions.last()@);
        assert(last[2] == '💭');
        assert forall|i: int| 0 <= i < opinions.len() implies unlike_count_line(#[trigger] v[i].0) by {
            if i < opinions.len() - 1 {
                assert(v[i] == opinions_view(opinions.drop_last())[i]);
            }
        }
    }
}

/// The decorated answer of a think call holds the count line of its `n`
/// records exactly once when there are some (as its sixth line), and no count
/// line when there are none; this holds whenever the answer text is not
/// itself a count line.
pub proof fn lemma_think_count_line_once(text: Seq<char>, n: nat, opinions: Seq<String>)
    requires
        forall|m: nat| text != #[trigger] based_on_line(m),
    ensures
        ({
            let v = think_view(text, n, opinions);
            &&& n > 0 ==> v[5].0 == based_on_line(n)
            &&& forall|i: int, m: nat|
                #![trigger v[i], based_on_line(m)]
                0 <= i < v.len() && (n == 0 || i != 5) ==> v[i].0 != based_on_line(m)
        }),
{
    let v = think_view(text, n, opinions);
    lemma_headers_unlike_count_line("Answer"@);
    lemma_opinions_unlike_count_line(opinions);
    let title = count_title("New opinions formed"@, opinions.len());
    lemma_headers_unlike_count_line(title);
    let head = header_view("Answer"@) + seq![(text, Tone::Answer), blank()];
    let counted: Seq<LineView> = if n > 0 {
        seq![(based_on_line(n), Tone::Dim), blank()]
    } else {
        Seq::empty()
    };
    let tail: Seq<LineView> = if opinions.len() > 0 {
        header_view(title) + opinions_view(opinions) + seq![blank()]
    } else {
        Seq::empty()
    };
    assert(v == head + counted + tail);
    assert forall|i: int, m: nat|
        #![trigger v[i], based_on_line(m)]
        0 <= i < v.len() && (n == 0 || i != 5) implies v[i].0 != based_on_line(m) by {
        lemma_count_line_shape(m);
        if i < 5 {
            if i == 3 {
                assert(v[i].0 == text);
            } else if i < 3 {
                assert(v[i] == header_view("Answer"@)[i]);
            }
        } else if i < 5 + counted.len() {
            assert(v[i] == counted[i - 5]);
        } else {
            let j = i - 5 - counted.len();
            assert(v[i] == tail[j]);
            if j < 3 {
                assert(tail[j] == header_view(title)[j]);
            } else if j < 3 + opinions.len() {
                assert(tail[j] == opinions_view(opinions)[j - 3]);
            }
        }
    }
}

/// The width of the id column of the agent table.
pub fn id_column_width_of(agents: &Vec<Agent>) -> (w: usize)
    ensures
        w as nat == id_column_width(agents@),
{
    let mut longest: usize = 0;
    let mut i: usize = 0;
    while i < agents.len()
        invariant
            i <= agents@.len(),
            longest as nat == max_id_len(agents@.subrange(0, i as int)),
        decreases agents@.len() - i,
    {
        let len = agents[i].agent_id.as_str().unicode_len();
        proof {
            let next = agents@.subrange(0, i + 1);
            assert(next.drop_last() =~= agents@.subrange(0, i as int));
        }
        if len > longest {
            longest = len;
        }
        i = i + 1;
    }
    proof {
        assert(agents@.subrange(0, agents@.len() as int) =~= agents@);
    }
    if longest > 8 {
        longest
    } else {
        8
    }
}

proof fn lemma_repeat_wrapped(piece: Seq<char>, k: nat)
    ensures
        piece + repeat(piece, k) + piece == repeat(piece, k + 2),
    decreases k,
{
    if k == 0 {
        assert(repeat(piece, 1) == repeat(piece, 0) + piece);
        assert(repeat(piece, 1) =~= piece);
        assert(repeat(piece, 2) == repeat(piece, 1) + piece);
        assert(repeat(piece, 2) =~= piece + piece);
    } else {
        lemma_repeat_wrapped(piece, (k - 1) as nat);
        assert(piece + repeat(piece, k) + piece =~= piece + repeat(piece, (k - 1) as nat) + piece + piece);
    }
}

fn push_border(out: &mut Vec<Line>, left: &str, right: &str, width: usize)
    ensures
        lines_view(final(out)@) == lines_view(old(out)@).push(border_view(left@, right@, width as nat)),
{
    let mut s = String::from_str("  ");
    s.append(left);
    s.append("─");
    push_repeat(&mut s, "─", width);
    s.append("─");
    s.append(right);
    push_line(out, s, Tone::Plain);
    proof {
        lemma_repeat_wrapped("─"@, width as nat);
        assert(s@ =~= border_view(left@, right@, width as nat).0);
    }
}

fn push_row(out: &mut Vec<Line>, id: &str, width: usize, tone: Tone)
    ensures
        lines_view(final(out)@) == lines_view(old(out)@).push(("  │ "@ + padded_right(id@, width as nat) + " │"@, tone)),
{
    let mut s = String::from_str("  │ ");
    push_padded_right(&mut s, id, width);
    s.append(" │");
    push_line(out, s, tone);
    proof {
        assert(s@ =~= "  │ "@ + padded_right(id@, width as nat) + " │"@);
    }
}

/// The decorated agent listing: a bordered table whose column is as wide as
/// the longest id, and at least 8 characters.
pub fn agents_lines(agents: &Vec<Agent>) -> (lines: Vec<Line>)
    ensures
        lines_view(lines@) == agents_view(agents@),
{
    let mut title = String::from_str("Agents");
    let n = agents.len();
    push_count_title(&mut title, n);
    let mut out = section_header(title.as_str());
    if n == 0 {
        push_text(&mut out, "  No agents found.", Tone::Dim);
        proof {
            assert(lines_view(out@) =~= agents_view(agents@));
        }
        return out;
    }
    let w = id_column_width_of(agents);
    push_border(&mut out, "┌", "┐", w);
    push_row(&mut out, "Agent ID", w, Tone::Heading);
    push_border(&mut out, "├", "┤", w);
    let ghost head = lines_view(out@);
    let mut i: usize = 0;
    while i < n
        invariant
            n == agents@.len(),
            i <= n,
            w as nat == id_column_width(agents@),
            lines_view(out@) == head + rows_view(agents@.subrange(0, i as int), w as nat),
        decreases n - i,
    {
        push_row(&mut out, agents[i].agent_id.as_str(), w, Tone::Plain);
        proof {
            let next = agents@.subrange(0, i + 1);
            assert(next.drop_last() =~= agents@.subrange(0, i as int));
            assert(lines_view(out@) =~= head + rows_view(next, w as nat));
        }
        i = i + 1;
    }
    proof {
        assert(agents@.subrange(0, n as int) =~= agents@);
    }
    push_border(&mut out, "└", "┘", w);
    push_blank(&mut out);
    proof {
        assert(lines_view(out@) =~= agents_view(agents@));
    }
    out
}

proof fn lemma_max_id_len_bounds(agents: Seq<Agent>)
    ensures
        forall|i: int| 0 <= i < agents.len() ==> (#[trigger] agents[i]).agent_id@.len() <= max_id_len(agents),
        agents.len() > 0 ==> exists|i: int|
            0 <= i < agents.len() && (#[trigger] agents[i]).agent_id@.len() == max_id_len(agents),
    decreases agents.len(),
{
    if agents.len() > 0 {
        let rest = agents.drop_last();
        lemma_max_id_len_bounds(rest);
        assert forall|i: int| 0 <= i < agents.len() implies (#[trigger] agents[i]).agent_id@.len()
            <= max_id_len(agents) by {
            if i < rest.len() {
                assert(agents[i] == rest[i]);
            }
        }
        if agents.last().agent_id@.len() <= max_id_len(rest) && rest.len() > 0 {
            let j = choose|j: int| 0 <= j < rest.len() && (#[trigger] rest[j]).agent_id@.len() == max_id_len(rest);
            assert(agents[j] == rest[j]);
        } else {
            assert(agents[agents.len() - 1] == agents.last());
        }
    }
}

proof fn lemma_rows_view_index(agents: Seq<Agent>, width: nat)
    ensures
        rows_view(agents, width).len() == agents.len(),
        forall|i: int|
            0 <= i < agents.len() ==> #[trigger] rows_view(agents, width)[i] == (
                agent_row(agents[i].agent_id@, width),
                Tone::Plain,
            ),
    decreases agents.len(),
{
    if agents.len() > 0 {
        let rest = agents.drop_last();
        lemma_rows_view_index(rest, width);
        assert forall|i: int| 0 <= i < agents.len() implies #[trigger] rows_view(agents, width)[i] == (
            agent_row(agents[i].agent_id@, width),
            Tone::Plain,
        ) by {
            if i < rest.len() {
                assert(agents[i] == rest[i]);
            }
        }
    }
}

proof fn lemma_padded_right_len(s: Seq<char>, width: nat)
    requires
        s.len() <= width,
    ensures
        padded_right(s, width).len() == width,
{
    if s.len() < width {
        lemma_repeat_char(' ', (width - s.len()) as nat);
    }
}

/// In the decorated agent table the id column is as wide as the longest id,
/// and at least 8 characters; the header and every row are padded to that
/// width, one row per agent in order.
pub proof fn lemma_agents_table_width(agents: Seq<Agent>)
    requires
        agents.len() > 0,
    ensures
        ({
            let w = id_column_width(agents);
            let v = agents_view(agents);
            &&& w >= 8
            &&& forall|i: int| 0 <= i < agents.len() ==> (#[trigger] agents[i]).agent_id@.len() <= w
            &&& (w == 8 || exists|i: int| 0 <= i < agents.len() && (#[trigger] agents[i]).agent_id@.len() == w)
            &&& v.len() == agents.len() + 8
            &&& v[4] == ("  │ "@ + padded_right("Agent ID"@, w) + " │"@, Tone::Heading)
            &&& padded_right("Agent ID"@, w).len() == w
            &&& forall|i: int|
                0 <= i < agents.len() ==> v[6 + i] == (agent_row(agents[i].agent_id@, w), Tone::Plain)
                    && padded_right((#[trigger] agents[i]).agent_id@, w).len() == w
        }),
{
    let w = id_column_width(agents);
    lemma_max_id_len_bounds(agents);
    lemma_rows_view_index(agents, w);
    reveal_strlit("Agent ID");
    lemma_padded_right_len("Agent ID"@, w);
    let v = agents_view(agents);
    let rows = rows_view(agents, w);
    assert forall|i: int| 0 <= i < agents.len() implies v[6 + i] == (
        agent_row(agents[i].agent_id@, w),
        Tone::Plain,
    ) && padded_right((#[trigger] agents[i]).agent_id@, w).len() == w by {
        assert(v[6 + i] == rows[i]);
        lemma_padded_right_len(agents[i].agent_id@, w);
    }
}

/// At most 60 characters of `content`, cut to 57 and marked with an ellipsis
/// when longer. Characters are counted, so a multi-byte character is never split.
pub fn preview(content: &str) -> (r: String)
    ensures
        r@ == preview_text(content@),
{
    if content.unicode_len() > 60 {
        let mut s = String::from_str(content.substring_char(0, 57));
        s.append("...");
        s
    } else {
        String::from_str(content)
    }
}

/// The report of a stored memory.
pub fn stored_lines(doc_id: &str, content: &str, is_async: bool) -> (r: Vec<Line>)
    ensures
        lines_view(r@) == stored_view(doc_id@, content@, is_async),
{
    let mut out: Vec<Line> = Vec::new();
    if is_async {
        push_text(&mut out, "⏳ Queued for background processing", Tone::Pending);
    } else {
        push_text(&mut out, "✓ Stored successfully", Tone::Done);
    }
    let mut s = String::from_str("  Document ID: ");
    s.append(doc_id);
    push_line(&mut out, s, Tone::Plain);
    let mut c = String::from_str("  Content: ");
    let p = preview(content);
    c.append(p.as_str());
    push_line(&mut out, c, Tone::Dim);
    push_blank(&mut out);
    proof {
        assert(lines_view(out@) =~= stored_view(doc_id@, content@, is_async));
    }
    out
}

} // verus!
