//! The fixed tables: reasons of well-known HTTP status codes and the MIME
//! types that short tokens stand for.
use vstd::prelude::*;
use crate::project::{lemma_views_push, views};
use crate::text::{chars_eq, chars_of, string_of, trim, trimmed};

verus! {

/// The reason phrase of a well-known status code.
pub open spec fn fallback_status(key: Seq<char>) -> Option<Seq<char>> {
    if key == "200"@ {
        Some("Ok"@)
    } else if key == "201"@ {
        Some("Created"@)
    } else if key == "202"@ {
        Some("Accepted"@)
    } else if key == "204"@ {
        Some("No Content"@)
    } else if key == "400"@ {
        Some("Bad Request"@)
    } else if key == "401"@ {
        Some("Unauthorized"@)
    } else if key == "403"@ {
        Some("Forbidden"@)
    } else if key == "404"@ {
        Some("Not Found"@)
    } else if key == "405"@ {
        Some("Method Not Allowed"@)
    } else if key == "406"@ {
        Some("Not Acceptable"@)
    } else if key == "408"@ {
        Some("Request Timeout"@)
    } else if key == "413"@ {
        Some("Payload Too Large"@)
    } else if key == "415"@ {
        Some("Unsupported Media Type"@)
    } else if key == "417"@ {
        Some("Expectation Failed"@)
    } else if key == "418"@ {
        Some("I'm a teapot"@)
    } else if key == "424"@ {
        Some("Failed Dependency"@)
    } else if key == "429"@ {
        Some("Too Many Requests"@)
    } else if key == "500"@ {
        Some("Internal Server Error"@)
    } else if key == "501"@ {
        Some("Not Implemented"@)
    } else if key == "502"@ {
        Some("Bad Gateway"@)
    } else if key == "503"@ {
        Some("Service Unavailable"@)
    } else if key == "504"@ {
        Some("Gateway Timeout"@)
    } else {
        None
    }
}

/// The reason phrase of a well-known status code.
pub fn fallback_reason(key: &[char]) -> (r: Option<&'static str>)
    ensures
        match r {
            Some(s) => fallback_status(key@) == Some(s@),
            None => fallback_status(key@) is None,
        },
{
    if chars_eq(key, "200") {
        return Some("Ok");
    }
    if chars_eq(key, "201") {
        return Some("Created");
    }
    if chars_eq(key, "202") {
        return Some("Accepted");
    }
    if chars_eq(key, "204") {
        return Some("No Content");
    }
    if chars_eq(key, "400") {
        return Some("Bad Request");
    }
    if chars_eq(key, "401") {
        return Some("Unauthorized");
    }
    if chars_eq(key, "403") {
        return Some("Forbidden");
    }
    if chars_eq(key, "404") {
        return Some("Not Found");
    }
    if chars_eq(key, "405") {
        return Some("Method Not Allowed");
    }
    if chars_eq(key, "406") {
        return Some("Not Acceptable");
    }
    if chars_eq(key, "408") {
        return Some("Request Timeout");
    }
    if chars_eq(key, "413") {
        return Some("Payload Too Large");
    }
    if chars_eq(key, "415") {
        return Some("Unsupported Media Type");
    }
    if chars_eq(key, "417") {
        return Some("Expectation Failed");
    }
    if chars_eq(key, "418") {
        return Some("I'm a teapot");
    }
    if chars_eq(key, "424") {
        return Some("Failed Dependency");
    }
    if chars_eq(key, "429") {
        return Some("Too Many Requests");
    }
    if chars_eq(key, "500") {
        return Some("Internal Server Error");
    }
    if chars_eq(key, "501") {
        return Some("Not Implemented");
    }
    if chars_eq(key, "502") {
        return Some("Bad Gateway");
    }
    if chars_eq(key, "503") {
        return Some("Service Unavailable");
    }
    if chars_eq(key, "504") {
        return Some("Gateway Timeout");
    }
    None
}

/// The MIME type that a short token stands for.
pub open spec fn mime_entry(key: Seq<char>) -> Option<Seq<char>> {
    if key == "json"@ {
        Some("application/json"@)
    } else if key == "xml"@ {
        Some("application/xml"@)
    } else if key == "text"@ {
        Some("text/plain"@)
    } else if key == "css"@ {
        Some("text/css"@)
    } else if key == "html"@ {
        Some("text/html"@)
    } else if key == "javascript"@ {
        Some("application/javascript"@)
    } else if key == "js"@ {
        Some("application/javascript"@)
    } else if key == "multipart"@ {
        Some("multipart/form-data"@)
    } else if key == "binary"@ {
        Some("application/octet-stream"@)
    } else if key == "mp4"@ {
        Some("video/mp4"@)
    } else if key == "jpg"@ {
        Some("image/jpeg"@)
    } else if key == "png"@ {
        Some("image/png"@)
    } else if key == "svg"@ {
        Some("image/svg+xml"@)
    } else {
        None
    }
}

/// The MIME type that a short token stands for.
pub fn mime_lookup(key: &[char]) -> (r: Option<&'static str>)
    ensures
        match r {
            Some(s) => mime_entry(key@) == Some(s@),
            None => mime_entry(key@) is None,
        },
{
    if chars_eq(key, "json") {
        return Some("application/json");
    }
    if chars_eq(key, "xml") {
        return Some("application/xml");
    }
    if chars_eq(key, "text") {
        return Some("text/plain");
    }
    if chars_eq(key, "css") {
        return Some("text/css");
    }
    if chars_eq(key, "html") {
        return Some("text/html");
    }
    if chars_eq(key, "javascript") {
        return Some("application/javascript");
    }
    if chars_eq(key, "js") {
        return Some("application/javascript");
    }
    if chars_eq(key, "multipart") {
        return Some("multipart/form-data");
    }
    if chars_eq(key, "binary") {
        return Some("application/octet-stream");
    }
    if chars_eq(key, "mp4") {
        return Some("video/mp4");
    }
    if chars_eq(key, "jpg") {
        return Some("image/jpeg");
    }
    if chars_eq(key, "png") {
        return Some("image/png");
    }
    if chars_eq(key, "svg") {
        return Some("image/svg+xml");
    }
    None
}

/// What a MIME token expands to: the table's entry, or the token itself.
pub open spec fn mime_of(token: Seq<char>) -> Seq<char> {
    match mime_entry(token) {
        Some(m) => m,
        None => token,
    }
}

/// The MIME types that trimmed shorthand tokens expand to, in order.
pub open spec fn mime_types(list: Seq<Seq<char>>) -> Seq<Seq<char>> {
    list.map_values(|s: Seq<char>| mime_of(trim(s)))
}

/// Expands each MIME shorthand token; unknown tokens pass through trimmed.
pub fn get_mime_types(list: &[String]) -> (r: Vec<String>)
    ensures
        views(r@) == mime_types(views(list@)),
{
    let mut out: Vec<String> = Vec::new();
    let mut i: usize = 0;
    while i < list.len()
        invariant
            i <= list@.len(),
            views(out@) == mime_types(views(list@)).subrange(0, i as int),
        decreases list@.len() - i,
    {
        let t = trimmed(&chars_of(list[i].as_str()));
        let m = match mime_lookup(&t) {
            Some(m) => String::from_str(m),
            None => string_of(&t),
        };
        let ghost before = out@;
        out.push(m);
        proof {
            lemma_views_push(before, m);
        }
        assert(views(out@) =~= mime_types(views(list@)).subrange(0, i as int + 1));
        i = i + 1;
    }
    assert(mime_types(views(list@)).subrange(0, i as int) =~= mime_types(views(list@)));
    out
}

} // verus!
