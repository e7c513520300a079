//! What the server answers: the page for a request line, and the text of
//! the response that carries a page's content.
//!
//! Reading the request and the page's file and writing the response are the
//! caller's; a connection handled this way is one job for the pool.
use vstd::prelude::*;
use vstd::string::StringExecFns;

verus! {

/// The pages that the server knows.
#[derive(Clone, Copy, Debug, PartialEq, Eq, Structural)]
pub enum Page {
    /// The greeting.
    Hello,
    /// The page for every request that the server does not know.
    NotFound,
}

/// What to do for one request.
#[derive(Clone, Copy, Debug, PartialEq, Eq, Structural)]
pub struct Route {
    /// The page to answer with.
    pub page: Page,
    /// The seconds to let pass before the answer is prepared.
    pub delay_secs: u64,
}

/// The route for the request line `line`.
pub open spec fn spec_route(line: Seq<char>) -> Route {
    if line == "GET / HTTP/1.1"@ {
        Route { page: Page::Hello, delay_secs: 0 }
    } else if line == "GET /sleep HTTP/1.1"@ {
        Route { page: Page::Hello, delay_secs: 5 }
    } else {
        Route { page: Page::NotFound, delay_secs: 0 }
    }
}

/// Decides what a request gets, by its first line: the greeting for the
/// root, the greeting after five seconds for `/sleep`, and the page for the
/// unknown for everything else.
pub fn route(request_line: &str) -> (route: Route)
    ensures
        route == spec_route(request_line@),
{
    let line = request_line.to_owned();
    if line == "GET / HTTP/1.1".to_owned() {
        Route { page: Page::Hello, delay_secs: 0 }
    } else if line == "GET /sleep HTTP/1.1".to_owned() {
        Route { page: Page::Hello, delay_secs: 5 }
    } else {
        Route { page: Page::NotFound, delay_secs: 0 }
    }
}

impl Page {
    /// The status line of a response with this page.
    pub open spec fn spec_status_line(self) -> Seq<char> {
        match self {
            Page::Hello => "HTTP/1.1 200 gotcha homie"@,
            Page::NotFound => "HTTP/1.1 404 couldn't find that sh*t"@,
        }
    }

    /// The path of the file that holds this page.
    pub open spec fn spec_file_name(self) -> Seq<char> {
        match self {
            Page::Hello => "pages/hello.html"@,
            Page::NotFound => "pages/404.html"@,
        }
    }

    /// The status line of a response with this page.
    pub fn status_line(&self) -> (line: &'static str)
        ensures
            line@ == self.spec_status_line(),
    {
        match self {
            Page::Hello => "HTTP/1.1 200 gotcha homie",
            Page::NotFound => "HTTP/1.1 404 couldn't find that sh*t",
        }
    }

    /// The path of the file that holds this page.
    pub fn file_name(&self) -> (path: &'static str)
        ensures
            path@ == self.spec_file_name(),
    {
        match self {
            Page::Hello => "pages/hello.html",
            Page::NotFound => "pages/404.html",
        }
    }
}

/// The character for the digit `d`.
pub open spec fn digit(d: nat) -> char {
    if d == 0 {
        '0'
    } else if d == 1 {
        '1'
    } else if d == 2 {
        '2'
    } else if d == 3 {
        '3'
    } else if d == 4 {
        '4'
    } else if d == 5 {
        '5'
    } else if d == 6 {
        '6'
    } else if d == 7 {
        '7'
    } else if d == 8 {
        '8'
    } else {
        '9'
    }
}

/// `n` in decimal, without leading zeros.
pub open spec fn decimal(n: nat) -> Seq<char>
    decreases n,
{
    if n < 10 {
        seq![digit(n)]
    } else {
        decimal(n / 10).push(digit(n % 10))
    }
}

/// The text of a response: the status line, the length of the content in
/// bytes, an empty line, the content.
pub open spec fn spec_response(status_line: Seq<char>, length: nat, content: Seq<char>) -> Seq<
    char,
> {
    status_line + "\r\nContent-Length: "@ + decimal(length) + "\r\n\r\n"@ + content
}

fn digit_text(d: usize) -> (text: &'static str)
    requires
        d < 10,
    ensures
        text@ == seq![digit(d as nat)],
{
    proof {
        reveal_strlit("0");
        reveal_strlit("1");
        reveal_strlit("2");
        reveal_strlit("3");
        reveal_strlit("4");
        reveal_strlit("5");
        reveal_strlit("6");
        reveal_strlit("7");
        reveal_strlit("8");
        reveal_strlit("9");
    }
    if d == 0 {
        "0"
    } else if d == 1 {
        "1"
    } else if d == 2 {
        "2"
    } else if d == 3 {
        "3"
    } else if d == 4 {
        "4"
    } else if d == 5 {
        "5"
    } else if d == 6 {
        "6"
    } else if d == 7 {
        "7"
    } else if d == 8 {
        "8"
    } else {
        "9"
    }
}

fn append_decimal(text: &mut String, n: usize)
    ensures
        final(text)@ == old(text)@ + decimal(n as nat),
    decreases n,
{
    if n >= 10 {
        append_decimal(text, n / 10);
    }
    text.append(digit_text(n % 10));
}

/// Puts a response together from its status line and its content.
pub fn response(status_line: &str, content: &str) -> (text: String)
    ensures
        text@ == spec_response(status_line@, content.len() as nat, content@),
{
    let mut text = status_line.to_owned();
    text.append("\r\nContent-Length: ");
    append_decimal(&mut text, content.len());
    text.append("\r\n\r\n");
    text.append(content);
    text
}

} // verus!
