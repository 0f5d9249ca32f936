//! Engine services: search proxy rotation, the text-layout module registry,
//! drawing handles and network event lines.
use vstd::prelude::*;
use crate::assoc::{assoc_insert, assoc_map, entries_view};
use crate::text::{decimal, u64_to_decimal};

verus! {

// ---------------------------------------------------------------------------
// Proxy rotation
// ---------------------------------------------------------------------------

/// The proxies searches rotate through, in order.
pub open spec fn proxy_pool() -> Seq<Seq<char>> {
    seq![
        "192.168.1.100:8080"@,
        "192.168.1.101:8080"@,
        "192.168.1.102:8080"@,
        "192.168.1.103:8080"@,
        "192.168.1.104:8080"@,
    ]
}

/// The counter after one more use: one more, wrapping to 0 past `usize::MAX`.
pub open spec fn next_position(p: usize) -> usize {
    if p < usize::MAX {
        (p + 1) as usize
    } else {
        0
    }
}

/// A rotation through the proxy pool, driven by a use counter.
pub struct ProxyRotation {
    index: usize,
}

impl ProxyRotation {
    /// How many proxies have been handed out (wrapping).
    pub closed spec fn position(self) -> usize {
        self.index
    }

    /// A rotation that starts with the first proxy.
    pub fn new() -> (r: Self)
        ensures
            r.position() == 0,
    {
        ProxyRotation { index: 0 }
    }

    /// The next proxy: the pool entry at the counter modulo the pool size.
    pub fn get_next_proxy(&mut self) -> (r: &'static str)
        ensures
            r@ == proxy_pool()[(old(self).position() % 5) as int],
            final(self).position() == next_position(old(self).position()),
    {
        let idx = self.index % 5;
        self.index = if self.index < usize::MAX {
            self.index + 1
        } else {
            0
        };
        if idx == 0 {
            "192.168.1.100:8080"
        } else if idx == 1 {
            "192.168.1.101:8080"
        } else if idx == 2 {
            "192.168.1.102:8080"
        } else if idx == 3 {
            "192.168.1.103:8080"
        } else {
            "192.168.1.104:8080"
        }
    }
}

/// Two successive proxies differ, unless the counter wraps between them.
pub proof fn law_successive_proxies_differ(p: usize)
    requires
        p < usize::MAX,
    ensures
        proxy_pool()[(p % 5) as int] != proxy_pool()[(next_position(p) % 5) as int],
{
    reveal_strlit("192.168.1.100:8080");
    reveal_strlit("192.168.1.101:8080");
    reveal_strlit("192.168.1.102:8080");
    reveal_strlit("192.168.1.103:8080");
    reveal_strlit("192.168.1.104:8080");
    let a: int = (p % 5) as int;
    let b: int = (next_position(p) % 5) as int;
    assert(a != b);
    assert(proxy_pool()[0][12] == '0');
    assert(proxy_pool()[1][12] == '1');
    assert(proxy_pool()[2][12] == '2');
    assert(proxy_pool()[3][12] == '3');
    assert(proxy_pool()[4][12] == '4');
    assert(proxy_pool()[a][12] != proxy_pool()[b][12]);
}

// ---------------------------------------------------------------------------
// Drawing handles
// ---------------------------------------------------------------------------

/// A colour handle.
#[derive(Clone, Copy, Debug, Default)]
pub struct Color;

impl Color {
    /// A colour from its alpha, red, green and blue components.
    pub fn from_argb(_a: u8, _r: u8, _g: u8, _b: u8) -> (c: Self) {
        Color
    }
}

/// A paint handle.
#[derive(Clone, Copy, Debug, Default)]
pub struct Paint;

impl Paint {
    /// A paint of the given colour.
    pub fn new(_color: Color, _properties: Option<()>) -> (p: Self) {
        Paint
    }

    /// Sets the paint's colour.
    pub fn set_color(&mut self, _color: Color) {
    }
}

/// A drawing surface handle.
#[derive(Debug, Default)]
pub struct Canvas;

// ---------------------------------------------------------------------------
// Text layout modules
// ---------------------------------------------------------------------------

/// Whether `bytes` begin with the WebAssembly magic number `\0asm`.
pub open spec fn is_wasm(bytes: Seq<u8>) -> bool {
    bytes.len() >= 4 && bytes[0] == 0u8 && bytes[1] == 0x61u8 && bytes[2] == 0x73u8 && bytes[3] == 0x6du8
}

/// The WebAssembly modules that lay out text, by the path they came from.
pub struct TextLayoutEngine {
    modules: Vec<(String, Vec<u8>)>,
}

impl TextLayoutEngine {
    /// The loaded modules' bytes, by path.
    pub closed spec fn modules(self) -> Map<Seq<char>, Vec<u8>> {
        assoc_map(entries_view(self.modules@))
    }

    /// An engine with no module.
    pub fn new() -> (r: Self)
        ensures
            r.modules() == Map::<Seq<char>, Vec<u8>>::empty(),
    {
        let r = TextLayoutEngine { modules: Vec::new() };
        assert(entries_view(r.modules@) =~= Seq::<(Seq<char>, Vec<u8>)>::empty());
        r
    }

    /// Records the module read from `path`: refused unless it starts with the
    /// WebAssembly magic number; a module from the same path is replaced.
    pub fn register_module(&mut self, path: &str, bytes: Vec<u8>) -> (r: Result<(), &'static str>)
        ensures
            is_wasm(bytes@) ==> r is Ok && final(self).modules() == old(self).modules().insert(path@, bytes),
            !is_wasm(bytes@) ==> (r matches Err(e) && e@ == "Invalid WASM module"@ && final(self).modules()
                == old(self).modules()),
    {
        if bytes.len() < 4 || bytes[0] != 0u8 || bytes[1] != 0x61u8 || bytes[2] != 0x73u8 || bytes[3] != 0x6du8 {
            return Err("Invalid WASM module");
        }
        assoc_insert(&mut self.modules, path.to_owned(), bytes);
        Ok(())
    }
}

// ---------------------------------------------------------------------------
// Network events
// ---------------------------------------------------------------------------

/// The line that reports a finished request: `NET:`, the URL, `OK` or `ERR`,
/// and the size, separated by `:`.
pub open spec fn network_event(url: Seq<char>, success: bool, size: nat) -> Seq<char> {
    "NET:"@ + url + ":"@ + (if success {
        "OK"@
    } else {
        "ERR"@
    }) + ":"@ + decimal(size)
}

/// The line that reports a finished request.
pub fn network_event_line(url: &str, success: bool, size: usize) -> (r: String)
    ensures
        r@ == network_event(url@, success, size as nat),
{
    let mut line = "NET:".to_owned();
    line.append(url);
    line.append(":");
    if success {
        line.append("OK");
    } else {
        line.append("ERR");
    }
    line.append(":");
    let n = u64_to_decimal(size as u64);
    line.append(n.as_str());
    line
}

/// The address a search goes to: the query and the proxy it goes through,
/// as parameters of the search engine's HTML endpoint.
pub open spec fn search_address(query: Seq<char>, proxy: Seq<char>) -> Seq<char> {
    "https://duckduckgo.com/html/?q="@ + query + "&proxy="@ + proxy
}

/// The address a search for `query` through `proxy` requests.
pub fn search_url(query: &str, proxy: &str) -> (r: String)
    ensures
        r@ == search_address(query@, proxy@),
{
    let mut url = "https://duckduckgo.com/html/?q=".to_owned();
    url.append(query);
    url.append("&proxy=");
    url.append(proxy);
    url
}

} // verus!
