//! The demo server's one rule: which status and page answer a request
//! line, and how the response is framed.
use vstd::prelude::*;

verus! {

/// How a request is answered.
pub struct Route {
    pub status: &'static str,
    pub file: &'static str,
    /// Whether the answer is delayed, to show a busy worker.
    pub slow: bool,
}

/// Status line, page and delay for a request line.
pub open spec fn route_of(line: Seq<char>) -> (Seq<char>, Seq<char>, bool) {
    if line == "GET / HTTP/1.1"@ {
        ("HTTP/1.1 200 OK"@, "hello.html"@, false)
    } else if line == "GET /sleep HTTP/1.1"@ {
        ("HTTP/1.1 200 OK"@, "hello.html"@, true)
    } else {
        ("HTTP/1.1 404 NOT FOUND"@, "404.html"@, false)
    }
}

/// The decimal digit `d`.
pub open spec fn digit_char(d: nat) -> char {
    if d == 0 { '0' }
    else if d == 1 { '1' }
    else if d == 2 { '2' }
    else if d == 3 { '3' }
    else if d == 4 { '4' }
    else if d == 5 { '5' }
    else if d == 6 { '6' }
    else if d == 7 { '7' }
    else if d == 8 { '8' }
    else { '9' }
}

/// `n` written in decimal, without leading zeros.
pub open spec fn decimal(n: nat) -> Seq<char>
    decreases n,
{
    if n < 10 {
        seq![digit_char(n)]
    } else {
        decimal(n / 10).push(digit_char(n % 10))
    }
}

/// A response: status line, the length of the body (in bytes, as
/// `str::len` counts it), a blank line, then the body.
pub open spec fn response_text(status: Seq<char>, length: nat, body: Seq<char>) -> Seq<char> {
    status + "\r\n"@ + "Content-Length: "@ + decimal(length) + "\r\n\r\n"@ + body
}

/// Chooses the answer to a request line.
pub fn route(request_line: &str) -> (r: Route)
    ensures
        (r.status@, r.file@, r.slow) == route_of(request_line@),
{
    let line = request_line.to_owned();
    if line == "GET / HTTP/1.1".to_owned() {
        Route { status: "HTTP/1.1 200 OK", file: "hello.html", slow: false }
    } else if line == "GET /sleep HTTP/1.1".to_owned() {
        Route { status: "HTTP/1.1 200 OK", file: "hello.html", slow: true }
    } else {
        Route { status: "HTTP/1.1 404 NOT FOUND", file: "404.html", slow: false }
    }
}

fn digit_str(d: usize) -> (s: &'static str)
    requires
        d < 10,
    ensures
        s@ == seq![digit_char(d as nat)],
{
    proof {
        reveal_strlit("0");
        reveal_strlit("1");
        reveal_strlit("2");
        reveal_strlit("3");
        reveal_strlit("4");
        reveal_strlit("5");
        reveal_strlit("6");
        reveal_strlit("7");
        reveal_strlit("8");
        reveal_strlit("9");
    }
    if d == 0 { "0" }
    else if d == 1 { "1" }
    else if d == 2 { "2" }
    else if d == 3 { "3" }
    else if d == 4 { "4" }
    else if d == 5 { "5" }
    else if d == 6 { "6" }
    else if d == 7 { "7" }
    else if d == 8 { "8" }
    else {
        assert(seq!['9'] =~= "9"@);
        "9"
    }
}

fn append_decimal(out: &mut String, n: usize)
    ensures
        final(out)@ == old(out)@ + decimal(n as nat),
    decreases n,
{
    if n >= 10 {
        append_decimal(out, n / 10);
    }
    out.append(digit_str(n % 10));
    proof {
        if n >= 10 {
            assert(decimal(n as nat) == decimal((n / 10) as nat).push(digit_char((n % 10) as nat)));
        }
        assert(final(out)@ =~= old(out)@ + decimal(n as nat));
    }
}

/// Frames a response around a status line and a body.
pub fn response(status: &str, body: &str) -> (r: String)
    ensures
        r@ == response_text(status@, body.len() as nat, body@),
{
    let mut out = status.to_owned();
    out.append("\r\n");
    out.append("Content-Length: ");
    append_decimal(&mut out, body.len());
    out.append("\r\n\r\n");
    out.append(body);
    assert(out@ =~= response_text(status@, body.len() as nat, body@));
    out
}

} // verus!
