//! The text that a transcript is written as: JSON arrays of objects, one
//! value per line, indented by two spaces for each level of nesting.

use vstd::prelude::*;
use vstd::string::*;

verus! {

/// `serde_json::Error`, the error that `serde_json::to_string` may return.
/// Nothing is known of what it holds.
#[verifier::external_type_specification]
#[verifier::external_body]
pub struct ExJsonError(serde_json::Error);

/// Why a transcript could not be written.
#[derive(Debug)]
pub enum SaveError {
    /// The text could not be produced.
    Serialization(serde_json::Error),
}

/// The JSON string literal for a text, quotes included, as
/// `serde_json::to_string` writes it.
pub uninterp spec fn json_string(s: Seq<char>) -> Seq<char>;

/// Calls `serde_json::to_string` on a string slice. For a string slice the
/// call writes into a vector of bytes that it owns and has no failing path,
/// so it returns `Ok`, and what it returns is the JSON string literal that
/// `json_string` names.
#[verifier::external_body]
pub(crate) fn quote(s: &str) -> (r: Result<String, serde_json::Error>)
    ensures
        r is Ok,
        r matches Ok(literal) ==> literal@ == json_string(s@),
{
    serde_json::to_string(s)
}

/// The character of a decimal digit.
pub open spec fn digit(d: int) -> char
    recommends
        0 <= d < 10,
{
    seq!['0', '1', '2', '3', '4', '5', '6', '7', '8', '9'][d]
}

/// The decimal digits of a natural number, without leading zeros.
pub open spec fn digits(n: nat) -> Seq<char>
    decreases n,
{
    if n < 10 {
        seq![digit(n as int)]
    } else {
        digits(n / 10).push(digit((n % 10) as int))
    }
}

/// An integer in decimal, with a minus sign where it is negative.
pub open spec fn decimal(i: int) -> Seq<char> {
    if i < 0 {
        seq!['-'] + digits((-i) as nat)
    } else {
        digits(i as nat)
    }
}

/// The blanks that open a line at a nesting depth: two for each level.
pub open spec fn indent(depth: nat) -> Seq<char> {
    Seq::new(2 * depth, |i: int| ' ')
}

/// A turn as a JSON object at a nesting depth. `content` and `author` are
/// JSON string literals already.
pub open spec fn turn_text(content: Seq<char>, author: Seq<char>, start_time: int, depth: nat) -> Seq<char> {
    "{\n"@ + indent(depth + 1) + "\"content\": "@ + content + ",\n"@ + indent(depth + 1)
        + "\"author\": "@ + author + ",\n"@ + indent(depth + 1) + "\"start_time\": "@ + decimal(
        start_time,
    ) + "\n"@ + indent(depth) + "}"@
}

/// The items of an array, each on a line of its own one level below
/// `depth`, with a comma between two of them.
pub open spec fn array_items(items: Seq<Seq<char>>, depth: nat) -> Seq<char>
    decreases items.len(),
{
    if items.len() == 0 {
        Seq::empty()
    } else if items.len() == 1 {
        "\n"@ + indent(depth + 1) + items[0]
    } else {
        array_items(items.drop_last(), depth) + ",\n"@ + indent(depth + 1) + items.last()
    }
}

/// A JSON array at a nesting depth: `[]` where it is empty, else the items
/// between brackets, the closing one on a line of its own.
pub open spec fn array_text(items: Seq<Seq<char>>, depth: nat) -> Seq<char> {
    if items.len() == 0 {
        "[]"@
    } else {
        "["@ + array_items(items, depth) + "\n"@ + indent(depth) + "]"@
    }
}

fn digit_str(d: u64) -> (s: &'static str)
    requires
        d < 10,
    ensures
        s@ == seq![digit(d as int)],
{
    proof {
        reveal_strlit("0");
        reveal_strlit("1");
        reveal_strlit("2");
        reveal_strlit("3");
        reveal_strlit("4");
        reveal_strlit("5");
        reveal_strlit("6");
        reveal_strlit("7");
        reveal_strlit("8");
        reveal_strlit("9");
    }
    let s = match d {
        0 => "0",
        1 => "1",
        2 => "2",
        3 => "3",
        4 => "4",
        5 => "5",
        6 => "6",
        7 => "7",
        8 => "8",
        _ => "9",
    };
    s
}

fn push_digits(out: &mut String, n: u64)
    ensures
        final(out)@ == old(out)@ + digits(n as nat),
    decreases n,
{
    if n >= 10 {
        push_digits(out, n / 10);
    }
    out.append(digit_str(n % 10));
}

/// Writes an integer in decimal behind what `out` holds.
pub fn push_decimal(out: &mut String, n: i64)
    ensures
        final(out)@ == old(out)@ + decimal(n as int),
{
    if n < 0 {
        out.append("-");
        proof {
            reveal_strlit("-");
        }
        let magnitude: u64 = (-(n as i128)) as u64;
        push_digits(out, magnitude);
    } else {
        push_digits(out, n as u64);
    }
}

/// Writes the blanks that open a line at `depth` behind what `out` holds.
pub fn push_indent(out: &mut String, depth: usize)
    ensures
        final(out)@ == old(out)@ + indent(depth as nat),
{
    let mut level: usize = 0;
    while level < depth
        invariant
            level <= depth,
            out@ == old(out)@ + indent(level as nat),
        decreases depth - level,
    {
        out.append("  ");
        proof {
            reveal_strlit("  ");
        }
        level += 1;
    }
}

/// A turn as a JSON object at a nesting depth. `content` and `author` are
/// the JSON string literals of the turn's content and author.
pub fn turn_json(content: &str, author: &str, start_time: i64, depth: usize) -> (r: String)
    requires
        depth < usize::MAX,
    ensures
        r@ == turn_text(content@, author@, start_time as int, depth as nat),
{
    let mut out = String::new();
    out.append("{\n");
    push_indent(&mut out, depth + 1);
    out.append("\"content\": ");
    out.append(content);
    out.append(",\n");
    push_indent(&mut out, depth + 1);
    out.append("\"author\": ");
    out.append(author);
    out.append(",\n");
    push_indent(&mut out, depth + 1);
    out.append("\"start_time\": ");
    push_decimal(&mut out, start_time);
    out.append("\n");
    push_indent(&mut out, depth);
    out.append("}");
    out
}

/// What becomes of a turn once its content and author were quoted: the
/// JSON object of the turn where both were, else the error of the first that
/// was not.
pub fn entry_json(
    content: Result<String, serde_json::Error>,
    author: Result<String, serde_json::Error>,
    start_time: i64,
    depth: usize,
) -> (r: Result<String, SaveError>)
    requires
        depth < usize::MAX,
    ensures
        match (content, author) {
            (Ok(c), Ok(a)) => r matches Ok(text) && text@ == turn_text(
                c@,
                a@,
                start_time as int,
                depth as nat,
            ),
            (Err(e), _) => r == Err::<String, SaveError>(SaveError::Serialization(e)),
            (Ok(_), Err(e)) => r == Err::<String, SaveError>(SaveError::Serialization(e)),
        },
{
    let content = match content {
        Ok(literal) => literal,
        Err(e) => {
            return Err(SaveError::Serialization(e));
        },
    };
    let author = match author {
        Ok(literal) => literal,
        Err(e) => {
            return Err(SaveError::Serialization(e));
        },
    };
    Ok(turn_json(content.as_str(), author.as_str(), start_time, depth))
}

/// The views of a vector of strings.
pub open spec fn texts(items: Seq<String>) -> Seq<Seq<char>> {
    items.map_values(|s: String| s@)
}

/// A JSON array of items that are JSON texts already, at a nesting depth.
pub fn array_json(items: &Vec<String>, depth: usize) -> (r: String)
    requires
        depth < usize::MAX,
    ensures
        r@ == array_text(texts(items@), depth as nat),
{
    let n = items.len();
    if n == 0 {
        return "[]".to_string();
    }
    let mut out = String::new();
    out.append("[");
    let ghost all = texts(items@);
    let mut k: usize = 0;
    while k < n
        invariant
            n == items@.len(),
            k <= n,
            depth < usize::MAX,
            all == texts(items@),
            out@ == "["@ + array_items(all.take(k as int), depth as nat),
        decreases n - k,
    {
        if k > 0 {
            out.append(",");
        }
        out.append("\n");
        push_indent(&mut out, depth + 1);
        out.append(items[k].as_str());
        proof {
            reveal_strlit(",");
            reveal_strlit("\n");
            reveal_strlit(",\n");
            assert(all.take(k + 1).drop_last() =~= all.take(k as int));
        }
        k += 1;
    }
    out.append("\n");
    push_indent(&mut out, depth);
    out.append("]");
    proof {
        assert(all.take(n as int) =~= all);
    }
    out
}

} // verus!
