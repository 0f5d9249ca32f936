//! Glycerin browser engine: the verified core of tab management, history and
//! bookmark storage, content-security policy, ad blocking, extension
//! management, find-in-page, caching, the renderer's system-call filter,
//! accessibility, web-vitals scoring and related browser logic.
pub mod text;
pub mod devtools;
pub mod seqs;
pub mod persistence;
pub mod shell;
pub mod encoding;
pub mod adblock;
pub mod cache;
pub mod extensions;
pub mod security;
pub mod js_engine;
pub mod media;
pub mod assoc;
pub mod engine;
pub mod rendering;
pub mod webplatform;
pub mod services;
pub mod compositing;
pub mod seccomp;
pub mod vitals;
pub mod accessibility;
