use vstd::prelude::*;

use crate::spec::BYTES_PER_PIXEL;

verus! {

/// Width and height of a frame or a rectangle, in pixels.
#[derive(Debug, Copy, Clone, PartialEq, Eq, Structural)]
pub struct Dim {
    pub width: u32,
    pub height: u32,
}

impl Dim {
    /// Number of bytes of one row of `width` pixels.
    pub open spec fn stride_of(self, bytes_per_pixel: u32) -> int {
        self.width * bytes_per_pixel
    }

    /// Number of bytes of all `width * height` pixels.
    pub open spec fn area_of(self, bytes_per_pixel: u32) -> int {
        self.width * self.height * bytes_per_pixel
    }

    /// Buffer bytes needed to encode a frame of this dimension (three bytes per pixel).
    pub fn calc_size(&self) -> (r: usize)
        requires
            self.width * self.height <= u32::MAX,
            self.area_of(BYTES_PER_PIXEL) <= u32::MAX,
        ensures
            r as int == self.area_of(BYTES_PER_PIXEL),
    {
        self.calc_area(BYTES_PER_PIXEL) as usize
    }

    /// Buffer bytes needed to encode this dimension with `bytes_per_pixel` bytes per pixel.
    pub fn calc_area(&self, bytes_per_pixel: u32) -> (r: u32)
        requires
            self.width * self.height <= u32::MAX,
            self.area_of(bytes_per_pixel) <= u32::MAX,
        ensures
            r as int == self.area_of(bytes_per_pixel),
    {
        proof {
            lemma_product_fits(self.width as int, self.height as int, bytes_per_pixel as int);
        }
        self.width * self.height * bytes_per_pixel
    }

    /// Buffer bytes to skip to get to the same column in the next row.
    pub fn calc_stride(&self, bytes_per_pixel: u32) -> (r: u32)
        requires
            self.stride_of(bytes_per_pixel) <= u32::MAX,
        ensures
            r as int == self.stride_of(bytes_per_pixel),
    {
        self.width * bytes_per_pixel
    }
}

/// A partial product of non-negative factors is no larger than the whole product
/// (when the last factor is positive) and is never negative.
pub proof fn lemma_product_fits(a: int, b: int, c: int)
    requires
        0 <= a,
        0 <= b,
        0 <= c,
    ensures
        c > 0 ==> a * b <= a * b * c,
        0 <= a * b,
        0 <= a * b * c,
{
    assert(0 <= a * b) by (nonlinear_arith)
        requires
            0 <= a,
            0 <= b,
    ;
    assert(0 <= a * b * c) by (nonlinear_arith)
        requires
            0 <= a * b,
            0 <= c,
    ;
    assert(c > 0 ==> a * b <= a * b * c) by (nonlinear_arith)
        requires
            0 <= a * b,
            0 <= c,
    ;
}

/// A pixel position (column `x`, row `y`).
#[derive(Debug, Copy, Clone, PartialEq, Eq, Structural)]
pub struct Pos {
    pub x: u32,
    pub y: u32,
}

/// A rectangle given by its upper-left corner and its size.
#[derive(Debug, Copy, Clone, PartialEq, Eq, Structural)]
pub struct Viewport {
    /// upper left
    pub ul: Pos,
    /// height/width
    pub dim: Dim,
}

/// Where transcoded output goes.
#[allow(non_camel_case_types)]
#[derive(Debug, PartialEq, Eq)]
pub enum OutHandle {
    HTTP_POST(String),
    HTTP_PUT(String),
    Stdout,
    File(String),
    Null,
}

/// Where video input comes from.
#[allow(non_camel_case_types)]
#[derive(Debug, PartialEq, Eq)]
pub enum InHandle {
    HTTP_GET(String),
    File(String),
    Null,
    Stdin,
}

/// The text "-", which names standard input or output.
pub open spec fn dash_text() -> Seq<char> {
    seq!['-']
}

/// The text "http", the prefix of a web location.
pub open spec fn http_text() -> Seq<char> {
    seq!['h', 't', 't', 'p']
}

/// Whether `s` begins with `prefix`.
pub open spec fn has_prefix(s: Seq<char>, prefix: Seq<char>) -> bool {
    prefix.len() <= s.len() && s.subrange(0, prefix.len() as int) == prefix
}

/// Whether `s` is exactly "-".
pub fn is_dash(s: &str) -> (r: bool)
    ensures
        r == (s@ == dash_text()),
{
    let n = s.unicode_len();
    if n != 1 {
        proof {
            if s@ == dash_text() {
                assert(s@.len() == 1);
            }
        }
        return false;
    }
    let c = s.get_char(0);
    proof {
        if c == '-' {
            assert(s@ =~= dash_text());
        }
    }
    c == '-'
}

/// Whether `s` begins with "http".
pub fn starts_with_http(s: &str) -> (r: bool)
    ensures
        r == has_prefix(s@, http_text()),
{
    let n = s.unicode_len();
    if n < 4 {
        return false;
    }
    let c0 = s.get_char(0);
    let c1 = s.get_char(1);
    let c2 = s.get_char(2);
    let c3 = s.get_char(3);
    let r = c0 == 'h' && c1 == 't' && c2 == 't' && c3 == 'p';
    proof {
        if r {
            assert(s@.subrange(0, 4) =~= http_text());
        } else {
            if has_prefix(s@, http_text()) {
                assert(s@.subrange(0, 4)[0] == s@[0]);
                assert(s@.subrange(0, 4)[1] == s@[1]);
                assert(s@.subrange(0, 4)[2] == s@[2]);
                assert(s@.subrange(0, 4)[3] == s@[3]);
            }
        }
    }
    r
}

/// The output handle that `uri` names: "-" is standard output, a text starting with
/// "http" is an upload by PUT, anything else a file.
pub open spec fn out_handle_for(uri: Seq<char>) -> OutHandleKind {
    if uri == dash_text() {
        OutHandleKind::Stdout
    } else if has_prefix(uri, http_text()) {
        OutHandleKind::HttpPut
    } else {
        OutHandleKind::File
    }
}

/// The input handle that `uri` names: "-" is standard input, a text starting with
/// "http" is a download, anything else a file.
pub open spec fn in_handle_for(uri: Seq<char>) -> InHandleKind {
    if uri == dash_text() {
        InHandleKind::Stdin
    } else if has_prefix(uri, http_text()) {
        InHandleKind::HttpGet
    } else {
        InHandleKind::File
    }
}

/// The variant of an `OutHandle`, without its payload.
#[derive(PartialEq, Eq, Structural)]
pub enum OutHandleKind {
    HttpPost,
    HttpPut,
    Stdout,
    File,
    Null,
}

/// The variant of an `InHandle`, without its payload.
#[derive(PartialEq, Eq, Structural)]
pub enum InHandleKind {
    HttpGet,
    File,
    Null,
    Stdin,
}

impl OutHandle {
    /// The variant of this handle.
    pub open spec fn kind(&self) -> OutHandleKind {
        match self {
            OutHandle::HTTP_POST(_) => OutHandleKind::HttpPost,
            OutHandle::HTTP_PUT(_) => OutHandleKind::HttpPut,
            OutHandle::Stdout => OutHandleKind::Stdout,
            OutHandle::File(_) => OutHandleKind::File,
            OutHandle::Null => OutHandleKind::Null,
        }
    }

    /// The location text the handle carries (empty for those that carry none).
    pub open spec fn location(&self) -> Seq<char> {
        match self {
            OutHandle::HTTP_POST(u) => u@,
            OutHandle::HTTP_PUT(u) => u@,
            OutHandle::File(u) => u@,
            _ => Seq::empty(),
        }
    }

    /// An upload by POST to `uri`.
    pub fn post(uri: String) -> (r: Self)
        ensures
            r == OutHandle::HTTP_POST(uri),
    {
        OutHandle::HTTP_POST(uri)
    }

    /// The output handle that `uri` names.
    pub fn from_str(uri: String) -> (r: Self)
        ensures
            r.kind() == out_handle_for(uri@),
            r.kind() != OutHandleKind::Stdout ==> r.location() == uri@,
            uri@ == dash_text() ==> r == OutHandle::Stdout,
            uri@ != dash_text() && has_prefix(uri@, http_text()) ==> r == OutHandle::HTTP_PUT(uri),
            uri@ != dash_text() && !has_prefix(uri@, http_text()) ==> r == OutHandle::File(uri),
    {
        if is_dash(uri.as_str()) {
            OutHandle::Stdout
        } else if starts_with_http(uri.as_str()) {
            OutHandle::HTTP_PUT(uri)
        } else {
            OutHandle::File(uri)
        }
    }
}

impl InHandle {
    /// The variant of this handle.
    pub open spec fn kind(&self) -> InHandleKind {
        match self {
            InHandle::HTTP_GET(_) => InHandleKind::HttpGet,
            InHandle::File(_) => InHandleKind::File,
            InHandle::Null => InHandleKind::Null,
            InHandle::Stdin => InHandleKind::Stdin,
        }
    }

    /// The location text the handle carries (empty for those that carry none).
    pub open spec fn location(&self) -> Seq<char> {
        match self {
            InHandle::HTTP_GET(u) => u@,
            InHandle::File(u) => u@,
            _ => Seq::empty(),
        }
    }

    /// The input handle that `uri` names.
    pub fn from_str(uri: String) -> (r: Self)
        ensures
            r.kind() == in_handle_for(uri@),
            r.kind() != InHandleKind::Stdin ==> r.location() == uri@,
            uri@ == dash_text() ==> r == InHandle::Stdin,
            uri@ != dash_text() && has_prefix(uri@, http_text()) ==> r == InHandle::HTTP_GET(uri),
            uri@ != dash_text() && !has_prefix(uri@, http_text()) ==> r == InHandle::File(uri),
    {
        if is_dash(uri.as_str()) {
            InHandle::Stdin
        } else if starts_with_http(uri.as_str()) {
            InHandle::HTTP_GET(uri)
        } else {
            InHandle::File(uri)
        }
    }
}

} // verus!
