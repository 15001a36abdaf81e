//! The static table of header compression: 61 fields that every endpoint
//! knows by index.

use vstd::prelude::*;
use vstd::string::StringSliceAdditionalSpecFns;

verus! {

/// The number of entries in the static table.
pub const STATIC_TABLE_LEN: usize = 61;

/// The entry at the given index of the static table, as text. Indices start
/// at 1.
#[verifier::opaque]
pub open spec fn spec_static_entry(index: int) -> (&'static str, &'static str) {
    if index == 1 {
        (":authority", "")
    } else if index == 2 {
        (":method", "GET")
    } else if index == 3 {
        (":method", "POST")
    } else if index == 4 {
        (":path", "/")
    } else if index == 5 {
        (":path", "/index.html")
    } else if index == 6 {
        (":scheme", "http")
    } else if index == 7 {
        (":scheme", "https")
    } else if index == 8 {
        (":status", "200")
    } else if index == 9 {
        (":status", "204")
    } else if index == 10 {
        (":status", "206")
    } else if index == 11 {
        (":status", "304")
    } else if index == 12 {
        (":status", "400")
    } else if index == 13 {
        (":status", "404")
    } else if index == 14 {
        (":status", "500")
    } else if index == 15 {
        ("accept-charset", "")
    } else if index == 16 {
        ("accept-encoding", "gzip, deflate")
    } else if index == 17 {
        ("accept-language", "")
    } else if index == 18 {
        ("accept-ranges", "")
    } else if index == 19 {
        ("accept", "")
    } else if index == 20 {
        ("access-control-allow-origin", "")
    } else if index == 21 {
        ("age", "")
    } else if index == 22 {
        ("allow", "")
    } else if index == 23 {
        ("authorization", "")
    } else if index == 24 {
        ("cache-control", "")
    } else if index == 25 {
        ("content-disposition", "")
    } else if index == 26 {
        ("content-encoding", "")
    } else if index == 27 {
        ("content-language", "")
    } else if index == 28 {
        ("content-length", "")
    } else if index == 29 {
        ("content-location", "")
    } else if index == 30 {
        ("content-range", "")
    } else if index == 31 {
        ("content-type", "")
    } else if index == 32 {
        ("cookie", "")
    } else if index == 33 {
        ("date", "")
    } else if index == 34 {
        ("etag", "")
    } else if index == 35 {
        ("expect", "")
    } else if index == 36 {
        ("expires", "")
    } else if index == 37 {
        ("from", "")
    } else if index == 38 {
        ("host", "")
    } else if index == 39 {
        ("if-match", "")
    } else if index == 40 {
        ("if-modified-since", "")
    } else if index == 41 {
        ("if-none-match", "")
    } else if index == 42 {
        ("if-range", "")
    } else if index == 43 {
        ("if-unmodified-since", "")
    } else if index == 44 {
        ("last-modified", "")
    } else if index == 45 {
        ("link", "")
    } else if index == 46 {
        ("location", "")
    } else if index == 47 {
        ("max-forwards", "")
    } else if index == 48 {
        ("proxy-authenticate", "")
    } else if index == 49 {
        ("proxy-authorization", "")
    } else if index == 50 {
        ("range", "")
    } else if index == 51 {
        ("referer", "")
    } else if index == 52 {
        ("refresh", "")
    } else if index == 53 {
        ("retry-after", "")
    } else if index == 54 {
        ("server", "")
    } else if index == 55 {
        ("set-cookie", "")
    } else if index == 56 {
        ("strict-transport-security", "")
    } else if index == 57 {
        ("transfer-encoding", "")
    } else if index == 58 {
        ("user-agent", "")
    } else if index == 59 {
        ("vary", "")
    } else if index == 60 {
        ("via", "")
    } else {
        ("www-authenticate", "")
    }
}

/// The entry at the given index of the static table, as text.
pub fn static_entry(index: usize) -> (r: (&'static str, &'static str))
    requires
        1 <= index <= 61,
    ensures
        r == spec_static_entry(index as int),
{
    proof {
        reveal(spec_static_entry);
    }
    if index == 1 {
        (":authority", "")
    } else if index == 2 {
        (":method", "GET")
    } else if index == 3 {
        (":method", "POST")
    } else if index == 4 {
        (":path", "/")
    } else if index == 5 {
        (":path", "/index.html")
    } else if index == 6 {
        (":scheme", "http")
    } else if index == 7 {
        (":scheme", "https")
    } else if index == 8 {
        (":status", "200")
    } else if index == 9 {
        (":status", "204")
    } else if index == 10 {
        (":status", "206")
    } else if index == 11 {
        (":status", "304")
    } else if index == 12 {
        (":status", "400")
    } else if index == 13 {
        (":status", "404")
    } else if index == 14 {
        (":status", "500")
    } else if index == 15 {
        ("accept-charset", "")
    } else if index == 16 {
        ("accept-encoding", "gzip, deflate")
    } else if index == 17 {
        ("accept-language", "")
    } else if index == 18 {
        ("accept-ranges", "")
    } else if index == 19 {
        ("accept", "")
    } else if index == 20 {
        ("access-control-allow-origin", "")
    } else if index == 21 {
        ("age", "")
    } else if index == 22 {
        ("allow", "")
    } else if index == 23 {
        ("authorization", "")
    } else if index == 24 {
        ("cache-control", "")
    } else if index == 25 {
        ("content-disposition", "")
    } else if index == 26 {
        ("content-encoding", "")
    } else if index == 27 {
        ("content-language", "")
    } else if index == 28 {
        ("content-length", "")
    } else if index == 29 {
        ("content-location", "")
    } else if index == 30 {
        ("content-range", "")
    } else if index == 31 {
        ("content-type", "")
    } else if index == 32 {
        ("cookie", "")
    } else if index == 33 {
        ("date", "")
    } else if index == 34 {
        ("etag", "")
    } else if index == 35 {
        ("expect", "")
    } else if index == 36 {
        ("expires", "")
    } else if index == 37 {
        ("from", "")
    } else if index == 38 {
        ("host", "")
    } else if index == 39 {
        ("if-match", "")
    } else if index == 40 {
        ("if-modified-since", "")
    } else if index == 41 {
        ("if-none-match", "")
    } else if index == 42 {
        ("if-range", "")
    } else if index == 43 {
        ("if-unmodified-since", "")
    } else if index == 44 {
        ("last-modified", "")
    } else if index == 45 {
        ("link", "")
    } else if index == 46 {
        ("location", "")
    } else if index == 47 {
        ("max-forwards", "")
    } else if index == 48 {
        ("proxy-authenticate", "")
    } else if index == 49 {
        ("proxy-authorization", "")
    } else if index == 50 {
        ("range", "")
    } else if index == 51 {
        ("referer", "")
    } else if index == 52 {
        ("refresh", "")
    } else if index == 53 {
        ("retry-after", "")
    } else if index == 54 {
        ("server", "")
    } else if index == 55 {
        ("set-cookie", "")
    } else if index == 56 {
        ("strict-transport-security", "")
    } else if index == 57 {
        ("transfer-encoding", "")
    } else if index == 58 {
        ("user-agent", "")
    } else if index == 59 {
        ("vary", "")
    } else if index == 60 {
        ("via", "")
    } else {
        ("www-authenticate", "")
    }
}

/// The static table as name and value pairs of bytes; the entry with index
/// `i` stands at position `i - 1`.
pub open spec fn spec_static_table() -> Seq<(Seq<u8>, Seq<u8>)> {
    Seq::new(
        61,
        |i: int| (spec_static_entry(i + 1).0.spec_bytes(), spec_static_entry(i + 1).1.spec_bytes()),
    )
}

} // verus!
