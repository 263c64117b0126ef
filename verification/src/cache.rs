//! The compiled-module cache: content-hash keyed reuse of compiled sandbox
//! bytecode.
//!
//! `get_or_compile(bytecode)` works in three steps: the bytecode's content
//! digest keys the on-disk cache; a previously stored artifact under that
//! key is used as is; on a miss the bytecode is compiled and the artifact is
//! stored best-effort — a failed store is swallowed, the cache being an
//! optimization, never a correctness dependency.  The library owns the
//! keying and the hit-or-miss decision; reading and writing the cache
//! directory, and the compilation itself, happen outside on plain values.

use vstd::prelude::*;

verus! {

/// The content digest of a piece of bytecode: what keys the module cache.
pub uninterp spec fn module_digest_of(bytes: Seq<u8>) -> Seq<char>;

/// Relies on wasmer_cache::Hash::generate and its hexadecimal ToString: a
/// 64-digit content digest that depends on the bytes alone.
#[verifier::external_body]
pub fn module_digest(bytes: &[u8]) -> (r: String)
    ensures
        r@ == module_digest_of(bytes@),
        r@.len() == 64,
{
    wasmer_cache::Hash::generate(bytes).to_string()
}

/// The sandbox-interface version a compiled module declares.
#[derive(Debug, Clone, Copy, PartialEq, Eq, Structural)]
pub enum WasiVersion {
    Snapshot0,
    Snapshot1,
    Wasix32,
    Wasix64,
    Latest,
}

/// What the library knows of a compiled module: the digest of the bytecode
/// it came from, and the sandbox-interface version it declares.  The
/// compiled artifact itself lives with the caller, alongside this record.
#[derive(Debug, Clone, PartialEq, Eq)]
pub struct CompiledModule {
    /// The content digest of the source bytecode.
    pub key: String,
    /// The declared sandbox-interface version.
    pub wasi_version: WasiVersion,
}

/// The outcome of a cache resolution: the bytecode's key, and the cached
/// module when one was found under exactly that key.
#[derive(Debug, Clone, PartialEq, Eq)]
pub struct CacheDecision {
    /// The digest that keys this bytecode.
    pub key: String,
    /// The cached module to use; `None` asks the caller to compile and
    /// then store the result under `key`, best-effort.
    pub cached: Option<CompiledModule>,
}

/// What a correct resolution for some bytecode looks like: its key is the
/// bytecode's digest, and a cached module is accepted only when it carries
/// exactly that key — anything else found in the cache is treated as a
/// miss and recompiled.
pub open spec fn spec_cache_resolution(
    bytes: Seq<u8>,
    loaded: Option<CompiledModule>,
    r: CacheDecision,
) -> bool {
    &&& r.key@ == module_digest_of(bytes)
    &&& match r.cached {
        Some(m) => loaded == Some(m) && m.key@ == module_digest_of(bytes),
        None => (loaded matches Some(l) ==> l.key@ != module_digest_of(bytes)),
    }
}

/// Keys the bytecode and decides hit or miss.  `loaded` is whatever the
/// caller's cache directory returned for the key it was asked for; a module
/// keyed by any other digest is rejected rather than trusted.
pub fn resolve_cached(bytes: &[u8], loaded: Option<CompiledModule>) -> (r: CacheDecision)
    ensures
        spec_cache_resolution(bytes@, loaded, r),
{
    let key = module_digest(bytes);
    match loaded {
        Some(m) => {
            if m.key == key {
                proof {
                    assert(m.key@ == key@);
                }
                CacheDecision { key, cached: Some(m) }
            } else {
                CacheDecision { key, cached: None }
            }
        },
        None => CacheDecision { key, cached: None },
    }
}

/// Law: the cache round-trips.  Two resolutions of identical bytecode agree
/// on the key, whatever each found in the cache; and any cached modules
/// they accepted carry that same key — so hit or miss, the modules handed
/// back are keyed alike.  (That a module's declared interface version is
/// likewise a function of its bytecode rests on the virtual-machine
/// library that compiles it, outside this crate.)
pub proof fn lemma_cache_round_trip(
    bytes: Seq<u8>,
    l1: Option<CompiledModule>,
    l2: Option<CompiledModule>,
    r1: CacheDecision,
    r2: CacheDecision,
)
    requires
        spec_cache_resolution(bytes, l1, r1),
        spec_cache_resolution(bytes, l2, r2),
    ensures
        r1.key@ == r2.key@,
        match (r1.cached, r2.cached) {
            (Some(m1), Some(m2)) => m1.key@ == m2.key@,
            _ => true,
        },
{
}

/// The slot of one language in a context.
pub open spec fn spec_slot(s: LanguageSlots, lang: crate::ident::Lang) -> Option<CompiledModule> {
    match lang {
        crate::ident::Lang::Python => s.python,
        crate::ident::Lang::Javascript => s.javascript,
    }
}

/// Per-language slots for the built-in modules.  The built-in languages'
/// bytecode is fixed when the program is built, so each language's module
/// is compiled at most once per context and then reused; one context is
/// shared per process, behind whatever once-initialization guard the
/// process uses.
#[derive(Debug, Clone, PartialEq, Eq)]
pub struct LanguageSlots {
    /// The Python module, once compiled.
    pub python: Option<CompiledModule>,
    /// The Javascript module, once compiled.
    pub javascript: Option<CompiledModule>,
}

impl LanguageSlots {
    /// A fresh context: nothing compiled yet.
    pub fn new() -> (r: LanguageSlots)
        ensures
            spec_slot(r, crate::ident::Lang::Python) is None,
            spec_slot(r, crate::ident::Lang::Javascript) is None,
    {
        LanguageSlots { python: None, javascript: None }
    }

    /// The stored module of a language, if it was compiled already.
    pub fn get(&self, lang: crate::ident::Lang) -> (r: Option<&CompiledModule>)
        ensures
            match r {
                Some(m) => spec_slot(*self, lang) == Some(*m),
                None => spec_slot(*self, lang) is None,
            },
    {
        match lang {
            crate::ident::Lang::Python => self.python.as_ref(),
            crate::ident::Lang::Javascript => self.javascript.as_ref(),
        }
    }

    /// Offers a freshly compiled module for a language.  The first offer
    /// sticks; every later offer is discarded in favor of the stored
    /// module, so each language is compiled at most once per context,
    /// however many times it is asked for.  The other language's slot is
    /// untouched either way.
    pub fn fill(&mut self, lang: crate::ident::Lang, module: CompiledModule)
        ensures
            match spec_slot(*old(self), lang) {
                Some(_) => *final(self) == *old(self),
                None => spec_slot(*final(self), lang) == Some(module),
            },
            forall|other: crate::ident::Lang|
                other != lang ==> spec_slot(*final(self), other) == spec_slot(*old(self), other),
    {
        match lang {
            crate::ident::Lang::Python => {
                if self.python.is_none() {
                    self.python = Some(module);
                }
            },
            crate::ident::Lang::Javascript => {
                if self.javascript.is_none() {
                    self.javascript = Some(module);
                }
            },
        }
    }
}

} // verus!
