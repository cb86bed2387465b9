//! The server's HTTP API: request parameters, the paging of lists, the list
//! of regions, and how errors are answered.
use vstd::prelude::*;
use vstd::string::StringExecFns;

use crate::region::{Region, Regions, text_lt};
use crate::topic::views;

verus! {

/// Path parameter: the name of an object.
#[derive(Debug, Clone)]
pub struct GetBynameParams {
    pub name: String,
}

/// Path parameter: a workspace.
#[derive(Debug, Clone)]
pub struct WorkspaceParam {
    pub workspace_name: String,
}

/// Path parameters: a device of a workspace.
#[derive(Debug, Clone)]
pub struct DeviceParams {
    pub workspace_name: String,
    pub device_name: String,
}

/// Path parameter: a gateway.
#[derive(Debug, Clone)]
pub struct GatewayIdParam {
    pub gateway_name: String,
}

/// Path parameters: a gateway of a workspace.
#[derive(Debug, Clone)]
pub struct GatewayIdParams {
    pub workspace_name: String,
    pub gateway_name: String,
}

/// Request to accept key exchanges through a gateway for a while.
#[derive(Debug, Clone, Copy)]
pub struct GatewayAllowKeyExchangeRequest {
    /// Duration in seconds.
    pub duration_sec: usize,
}

/// Paging of a list: the offset in the result set (default 0) and the
/// number of items to return (default 10).
#[derive(Debug, Clone, Copy)]
pub struct ListRequest {
    pub offset: Option<usize>,
    pub limit: Option<usize>,
}

/// Paging of a list of gateways: the offset in the result set (default 0)
/// and the number of items to return (default 10).
#[derive(Debug, Clone, Copy)]
pub struct ListParams {
    pub offset: Option<usize>,
    pub limit: Option<usize>,
}

impl ListParams {
    /// The offset and the number of items to return, with their defaults.
    pub fn window(&self) -> (r: (usize, usize))
        ensures
            r.0 == match self.offset {
                Some(o) => o,
                None => 0,
            },
            r.1 == match self.limit {
                Some(l) => l,
                None => DEFAULT_LIMIT,
            },
    {
        ListRequest { offset: self.offset, limit: self.limit }.window()
    }
}

/// Number of items a list returns where the request gives none.
pub const DEFAULT_LIMIT: usize = 10;

impl ListRequest {
    /// The offset and the number of items to return, with their defaults.
    pub fn window(&self) -> (r: (usize, usize))
        ensures
            r.0 == match self.offset {
                Some(o) => o,
                None => 0,
            },
            r.1 == match self.limit {
                Some(l) => l,
                None => DEFAULT_LIMIT,
            },
    {
        let offset = match self.offset {
            Some(o) => o,
            None => 0,
        };
        let limit = match self.limit {
            Some(l) => l,
            None => DEFAULT_LIMIT,
        };
        (offset, limit)
    }
}

/// Body of an error answer.
#[derive(Debug, Clone)]
pub struct ApiError {
    /// What went wrong.
    pub message: String,
}

/// A region in the list of regions: its module and its name.
#[derive(Debug, Clone)]
pub struct RegionListItem {
    pub module: String,
    pub name: String,
}

/// The loaded regions, in the order of their modules' names.
pub fn region_list(regions: &Regions) -> (r: Vec<RegionListItem>)
    requires
        regions.wf(),
    ensures
        r@.len() == regions.modules().len(),
        forall|a: int, b: int| 0 <= a < b < r@.len() ==> text_lt(#[trigger] r@[a].module@, #[trigger] r@[b].module@),
        forall|i: int|
            0 <= i < r@.len() ==> regions.has((#[trigger] r@[i]).module@) && r@[i].name@ == regions.region_of(
                r@[i].module@,
            ).name@,
        forall|k: Seq<char>| regions.has(k) ==> exists|i: int| 0 <= i < r@.len() && #[trigger] r@[i].module@ == k,
{
    let keys = regions.get_keys();
    assert forall|a: int| 0 <= a < keys@.len() implies regions.has(#[trigger] keys@[a]@) by {
        assert(views(keys@)[a] == keys@[a]@);
        assert(views(keys@).contains(keys@[a]@));
    }
    let mut out: Vec<RegionListItem> = Vec::new();
    let mut i: usize = 0;
    while i < keys.len()
        invariant
            regions.wf(),
            i <= keys@.len(),
            out@.len() == i,
            forall|a: int| 0 <= a < i ==> (#[trigger] out@[a]).module@ == keys@[a]@,
            forall|a: int|
                0 <= a < i ==> regions.has((#[trigger] out@[a]).module@) && out@[a].name@ == regions.region_of(
                    out@[a].module@,
                ).name@,
            forall|a: int| 0 <= a < keys@.len() ==> regions.has(#[trigger] keys@[a]@),
        decreases keys@.len() - i,
    {
        let module = keys[i].as_str();
        match regions.get(module) {
            Some(r) => {
                out.push(RegionListItem { module: String::from_str(module), name: r.name.clone() });
            },
            None => {
                assert(regions.has(keys@[i as int]@));
                assert(false);
                return out;
            },
        }
        i += 1;
    }
    proof {
        assert forall|k: Seq<char>| regions.has(k) implies exists|i: int|
            0 <= i < out@.len() && #[trigger] out@[i].module@ == k by {
            assert(views(keys@).contains(k));
            let j = choose|j: int| 0 <= j < keys@.len() && views(keys@)[j] == k;
            assert(out@[j].module@ == k);
        }
    }
    out
}

/// Kinds of server errors, as far as the answer depends on them.
#[derive(Debug, Clone, Copy, PartialEq, Eq, Structural)]
pub enum ErrorKind {
    NotFound,
    Abort,
    InvalidPin,
    Counter,
    EmptyUpdate,
    /// A frame or cryptography error.
    Protocol,
    /// The database found no row.
    RowNotFound,
    /// The database refused the statement.
    Database,
    /// The request's parameters failed validation.
    Validation,
    /// Any other error.
    Other,
}

/// HTTP status of the answer to an error of kind `kind`.
pub fn status_code(kind: ErrorKind) -> (r: u16)
    ensures
        r == match kind {
            ErrorKind::NotFound | ErrorKind::RowNotFound => 404u16,
            ErrorKind::InvalidPin | ErrorKind::Database => 422u16,
            ErrorKind::Validation => 400u16,
            _ => 500u16,
        },
{
    match kind {
        ErrorKind::NotFound => 404,
        ErrorKind::RowNotFound => 404,
        ErrorKind::InvalidPin => 422,
        ErrorKind::Database => 422,
        ErrorKind::Validation => 400,
        _ => 500,
    }
}

/// Whether `pattern` occurs in `s`.
pub open spec fn contains_text(s: Seq<char>, pattern: Seq<char>) -> bool {
    exists|i: int| 0 <= i <= s.len() - pattern.len() && #[trigger] s.subrange(i, i + pattern.len()) == pattern
}

fn str_contains(s: &str, pattern: &str) -> (r: bool)
    ensures
        r == contains_text(s@, pattern@),
{
    let n = s.unicode_len();
    let m = pattern.unicode_len();
    if m > n {
        return false;
    }
    let mut i: usize = 0;
    while i <= n - m
        invariant
            n == s@.len(),
            m == pattern@.len(),
            m <= n,
            i <= n - m + 1,
            forall|j: int| 0 <= j < i ==> #[trigger] s@.subrange(j, j + m) != pattern@,
        decreases n - m + 1 - i,
    {
        let mut k: usize = 0;
        let mut same = true;
        while k < m
            invariant
                n == s@.len(),
                m == pattern@.len(),
                i + m <= n,
                k <= m,
                same == forall|q: int| 0 <= q < k ==> s@[i + q] == pattern@[q],
            decreases m - k,
        {
            if s.get_char(i + k) != pattern.get_char(k) {
                same = false;
            }
            k += 1;
        }
        if same {
            assert(s@.subrange(i as int, i + m) =~= pattern@);
            return true;
        }
        proof {
            let q = choose|q: int| 0 <= q < m && s@[i + q] != pattern@[q];
            assert(s@.subrange(i as int, i + m)[q] != pattern@[q]);
        }
        i += 1;
    }
    proof {
        if contains_text(s@, pattern@) {
            let j = choose|j: int| 0 <= j <= s@.len() - pattern@.len() && #[trigger] s@.subrange(j, j + pattern@.len()) == pattern@;
            assert(s@.subrange(j, j + m) != pattern@);
        }
    }
    false
}

/// The message answered for a database error with text `message`: a
/// violated uniqueness is reported as such, any other error as it is.
pub fn database_error_description(message: &str) -> (r: String)
    ensures
        contains_text(message@, "UNIQUE constraint"@) ==> r@ == "Object already exist by the same identifier"@,
        !contains_text(message@, "UNIQUE constraint"@) ==> r@ == message@,
{
    if str_contains(message, "UNIQUE constraint") {
        String::from_str("Object already exist by the same identifier")
    } else {
        String::from_str(message)
    }
}

} // verus!
