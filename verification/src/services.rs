//! User services: text direction and shaping, input-method composition,
//! encrypted synchronisation, the password vault, and tabs shared with
//! other devices.
use vstd::prelude::*;
use aes_gcm::KeyInit;
use base64::Engine;
use sha2::Digest;
use crate::assoc::{
    assoc_find, assoc_map, assoc_replace, assoc_upsert, entries_view, keys_unique, lemma_map_entry,
    lemma_unique_lookup,
};
use crate::encoding::b64_encode;
use crate::text::{decimal, str_contains, str_eq, strs, u64_to_decimal};
use crate::webplatform::{new_uuid, utc_timestamp};
use vstd::utf8::{decode_utf8, encode_utf8, valid_utf8};

verus! {

// ---------------------------------------------------------------------------
// Outside primitives
// ---------------------------------------------------------------------------

/// What `base64::engine::general_purpose::STANDARD.decode` makes of `input`,
/// or nothing when it refuses it.
pub uninterp spec fn b64_decoded(input: Seq<u8>) -> Option<Seq<u8>>;

/// The SHA-256 digest of `data`.
pub uninterp spec fn sha256_of(data: Seq<u8>) -> Seq<u8>;

/// What `String::from_utf8_lossy` makes of `bytes`.
pub uninterp spec fn lossy_utf8(bytes: Seq<u8>) -> Seq<char>;

/// `base64::engine::general_purpose::STANDARD.encode`: standard Base64 with
/// `=` padding, as RFC 4648 defines it. The size bound keeps the crate's
/// length computation and buffer within range.
#[verifier::external_body]
fn b64_standard_encode(data: &[u8]) -> (r: String)
    requires
        4 * ((data@.len() + 2) / 3) <= isize::MAX,
    ensures
        r@ == b64_encode(data@),
{
    base64::engine::general_purpose::STANDARD.encode(data)
}

/// Optional bytes taken as a sequence.
pub open spec fn bytes_view(r: Option<Vec<u8>>) -> Option<Seq<u8>> {
    match r {
        Some(v) => Some(v@),
        None => None,
    }
}

/// `base64::engine::general_purpose::STANDARD.decode`. The contract names
/// the result, and states that the bytes of a standard encoding of `x`
/// decode to `x`.
#[verifier::external_body]
fn b64_standard_decode(input: &[u8]) -> (r: Option<Vec<u8>>)
    ensures
        bytes_view(r) == b64_decoded(input@),
        forall|x: Seq<u8>| #[trigger] encode_utf8(b64_encode(x)) == input@ ==> bytes_view(r) == Some(x),
{
    base64::engine::general_purpose::STANDARD.decode(input).ok()
}

/// `sha2::Sha256::digest`: the contract names the digest and states its
/// length, 32 bytes.
#[verifier::external_body]
fn sha256_digest(data: &[u8]) -> (r: Vec<u8>)
    requires
        data@.len() < 0x2000_0000_0000_0000,
    ensures
        r@ == sha256_of(data@),
        r@.len() == 32,
{
    sha2::Sha256::digest(data).to_vec()
}

/// `aes_gcm::Aes256Gcm::new_from_slice`: the contract claims that the key is
/// accepted exactly when it is 32 bytes long.
#[verifier::external_body]
fn aes256_accepts_key(key: &[u8]) -> (b: bool)
    ensures
        b == (key@.len() == 32),
{
    aes_gcm::Aes256Gcm::new_from_slice(key).is_ok()
}

/// `String::from_utf8_lossy`: the contract names the result and states that
/// valid UTF-8 is decoded unchanged; what invalid sequences become is left
/// to the name.
#[verifier::external_body]
fn utf8_lossy(bytes: &[u8]) -> (s: String)
    ensures
        s@ == lossy_utf8(bytes@),
        valid_utf8(bytes@) ==> s@ == decode_utf8(bytes@),
{
    String::from_utf8_lossy(bytes).to_string()
}

/// The UTF-8 bytes of a string.
fn utf8_bytes(s: &str) -> (r: Vec<u8>)
    ensures
        r@ == encode_utf8(s@),
{
    vstd::slice::slice_to_vec(s.as_bytes())
}

// ---------------------------------------------------------------------------
// Text direction and shaping
// ---------------------------------------------------------------------------

/// A direction of text.
#[derive(Clone, Copy, PartialEq, Eq, Structural, Debug)]
pub enum TextDirection {
    Ltr,
    Rtl,
    Auto,
}

/// A run of embedded text at one bidirectional level.
pub struct EmbeddingLevel {
    pub level: u8,
    pub start: usize,
    pub end: usize,
}

/// The state of the bidirectional algorithm.
pub struct BiDiAlgorithm {
    pub base_direction: TextDirection,
    pub embeddings: Vec<EmbeddingLevel>,
}

/// The fonts text falls back to.
pub struct FontFallbackSystem {
    pub primary_font: String,
    pub fallback_fonts: Vec<String>,
    pub emoji_font: String,
    pub cjk_font: String,
    pub arabic_font: String,
    pub hebrew_font: String,
}

/// The features of the shaper.
pub struct TextShapingEngine {
    pub harfbuzz_ready: bool,
    pub kerning_enabled: bool,
    pub ligatures_enabled: bool,
}

/// Text laid out in one font.
pub struct GlyphRun {
    pub text: String,
    pub font: String,
}

/// Bidirectional text, font fallback and shaping.
pub struct TextEngine {
    pub bidi_algorithm: BiDiAlgorithm,
    pub font_fallback: FontFallbackSystem,
    pub shaping_engine: TextShapingEngine,
}

/// Whether `c` is a Hebrew (U+0590 to U+05FF) or Arabic (U+0600 to U+06FF) character.
pub open spec fn is_rtl_char(c: char) -> bool {
    ('\u{0590}' <= c && c <= '\u{05FF}') || ('\u{0600}' <= c && c <= '\u{06FF}')
}

/// The direction of `text`: right to left when it holds a Hebrew or Arabic
/// character, left to right otherwise.
pub open spec fn direction_of(text: Seq<char>) -> TextDirection {
    if exists|i: int| 0 <= i < text.len() && is_rtl_char(#[trigger] text[i]) {
        TextDirection::Rtl
    } else {
        TextDirection::Ltr
    }
}

impl TextEngine {
    /// An engine with automatic base direction, Inter as its primary font and
    /// every shaping feature on.
    pub fn new() -> (r: Self)
        ensures
            r.bidi_algorithm.base_direction == TextDirection::Auto,
            r.bidi_algorithm.embeddings@.len() == 0,
            r.font_fallback.primary_font@ == "Inter"@,
            strs(r.font_fallback.fallback_fonts@) == seq!["Noto Sans"@, "Arial Unicode MS"@, "Segoe UI Emoji"@],
            r.font_fallback.emoji_font@ == "Noto Color Emoji"@,
            r.font_fallback.cjk_font@ == "Noto Sans CJK"@,
            r.font_fallback.arabic_font@ == "Noto Naskh Arabic"@,
            r.font_fallback.hebrew_font@ == "Noto Sans Hebrew"@,
            r.shaping_engine.harfbuzz_ready && r.shaping_engine.kerning_enabled && r.shaping_engine.ligatures_enabled,
    {
        let mut fallback_fonts: Vec<String> = Vec::new();
        fallback_fonts.push("Noto Sans".to_owned());
        fallback_fonts.push("Arial Unicode MS".to_owned());
        fallback_fonts.push("Segoe UI Emoji".to_owned());
        assert(strs(fallback_fonts@) =~= seq!["Noto Sans"@, "Arial Unicode MS"@, "Segoe UI Emoji"@]);
        TextEngine {
            bidi_algorithm: BiDiAlgorithm { base_direction: TextDirection::Auto, embeddings: Vec::new() },
            font_fallback: FontFallbackSystem {
                primary_font: "Inter".to_owned(),
                fallback_fonts,
                emoji_font: "Noto Color Emoji".to_owned(),
                cjk_font: "Noto Sans CJK".to_owned(),
                arabic_font: "Noto Naskh Arabic".to_owned(),
                hebrew_font: "Noto Sans Hebrew".to_owned(),
            },
            shaping_engine: TextShapingEngine { harfbuzz_ready: true, kerning_enabled: true, ligatures_enabled: true },
        }
    }

    /// The direction of `text`.
    pub fn resolve_direction(&self, text: &str) -> (d: TextDirection)
        ensures
            d == direction_of(text@),
    {
        let n = text.unicode_len();
        let mut i: usize = 0;
        while i < n
            invariant
                n == text@.len(),
                i <= n,
                forall|k: int| 0 <= k < i ==> !is_rtl_char(#[trigger] text@[k]),
            decreases n - i,
        {
            let c = text.get_char(i);
            if ('\u{0590}' <= c && c <= '\u{05FF}') || ('\u{0600}' <= c && c <= '\u{06FF}') {
                assert(is_rtl_char(text@[i as int]));
                return TextDirection::Rtl;
            }
            i = i + 1;
        }
        TextDirection::Ltr
    }

    /// `text` as one run in the primary font.
    pub fn shape_text(&self, text: &str, _direction: &TextDirection) -> (r: Vec<GlyphRun>)
        ensures
            r@.len() == 1,
            r@[0].text@ == text@,
            r@[0].font@ == "Inter"@,
    {
        let mut r: Vec<GlyphRun> = Vec::new();
        r.push(GlyphRun { text: text.to_owned(), font: "Inter".to_owned() });
        r
    }
}

// ---------------------------------------------------------------------------
// Input method
// ---------------------------------------------------------------------------

/// The candidate window of an input method.
pub struct CandidateWindow {
    pub visible: bool,
    pub candidates: Vec<String>,
    pub selected_index: usize,
    pub position: (i32, i32),
}

/// The candidates offered while composing in `language`.
pub open spec fn candidates_for(language: Seq<char>) -> Seq<Seq<char>> {
    if language == "zh-CN"@ {
        seq!["你好"@, "您是"@, "年内"@]
    } else if language == "ja-JP"@ {
        seq!["こんにちは"@, "今日は"@]
    } else if language == "ko-KR"@ {
        seq!["안녕하세요"@, "안녕"@]
    } else {
        Seq::empty()
    }
}

/// An input method for Asian languages: the text being composed and the
/// candidates offered for it.
pub struct ImeEngine {
    active: bool,
    composition_string: String,
    candidate_window: CandidateWindow,
    supported_languages: Vec<String>,
    current_language: String,
}

impl ImeEngine {
    /// Whether a composition is in progress.
    pub closed spec fn composing(self) -> bool {
        self.active
    }

    /// The text composed so far.
    pub closed spec fn composition(self) -> Seq<char> {
        self.composition_string@
    }

    /// The candidates offered.
    pub closed spec fn candidates(self) -> Seq<Seq<char>> {
        strs(self.candidate_window.candidates@)
    }

    /// Whether the candidate window shows.
    pub closed spec fn window_visible(self) -> bool {
        self.candidate_window.visible
    }

    /// The language being composed.
    pub closed spec fn language(self) -> Seq<char> {
        self.current_language@
    }

    /// The supported languages.
    pub closed spec fn languages(self) -> Seq<Seq<char>> {
        strs(self.supported_languages@)
    }

    /// An idle input method for Simplified Chinese that also supports
    /// Traditional Chinese, Japanese and Korean.
    pub fn new() -> (r: Self)
        ensures
            !r.composing(),
            r.composition() == Seq::<char>::empty(),
            r.candidates() == Seq::<Seq<char>>::empty(),
            !r.window_visible(),
            r.language() == "zh-CN"@,
            r.languages() == seq!["zh-CN"@, "zh-TW"@, "ja-JP"@, "ko-KR"@],
    {
        let mut langs: Vec<String> = Vec::new();
        langs.push("zh-CN".to_owned());
        langs.push("zh-TW".to_owned());
        langs.push("ja-JP".to_owned());
        langs.push("ko-KR".to_owned());
        let r = ImeEngine {
            active: false,
            composition_string: String::new(),
            candidate_window: CandidateWindow { visible: false, candidates: Vec::new(), selected_index: 0, position: (0, 0) },
            supported_languages: langs,
            current_language: "zh-CN".to_owned(),
        };
        assert(r.candidates() =~= Seq::<Seq<char>>::empty());
        assert(r.languages() =~= seq!["zh-CN"@, "zh-TW"@, "ja-JP"@, "ko-KR"@]);
        r
    }

    /// Starts composing: the text is emptied and the window hidden.
    pub fn start_composition(&mut self)
        ensures
            final(self).composing(),
            final(self).composition() == Seq::<char>::empty(),
            !final(self).window_visible(),
            final(self).candidates() == old(self).candidates(),
            final(self).language() == old(self).language(),
    {
        self.active = true;
        self.composition_string = String::new();
        self.candidate_window.visible = false;
    }

    /// Adds `c` to the composition, when composing, and offers the
    /// candidates of the language.
    pub fn input_char(&mut self, c: char)
        ensures
            old(self).composing() ==> (final(self).composition() == old(self).composition().push(c)
                && final(self).candidates() == candidates_for(old(self).language())
                && final(self).window_visible() == (candidates_for(old(self).language()).len() > 0)),
            !old(self).composing() ==> (final(self).composition() == old(self).composition()
                && final(self).candidates() == old(self).candidates()
                && final(self).window_visible() == old(self).window_visible()),
            final(self).composing() == old(self).composing(),
            final(self).language() == old(self).language(),
    {
        if self.active {
            crate::text::push_char(&mut self.composition_string, c);
            self.update_candidates();
        }
    }

    /// Offers the candidates of the language; the window shows when there are any.
    pub fn update_candidates(&mut self)
        ensures
            final(self).candidates() == candidates_for(old(self).language()),
            final(self).window_visible() == (candidates_for(old(self).language()).len() > 0),
            final(self).composing() == old(self).composing(),
            final(self).composition() == old(self).composition(),
            final(self).language() == old(self).language(),
    {
        let mut cands: Vec<String> = Vec::new();
        if str_eq(self.current_language.as_str(), "zh-CN") {
            cands.push("你好".to_owned());
            cands.push("您是".to_owned());
            cands.push("年内".to_owned());
        } else if str_eq(self.current_language.as_str(), "ja-JP") {
            cands.push("こんにちは".to_owned());
            cands.push("今日は".to_owned());
        } else if str_eq(self.current_language.as_str(), "ko-KR") {
            cands.push("안녕하세요".to_owned());
            cands.push("안녕".to_owned());
        }
        proof {
            reveal_strlit("zh-CN");
            reveal_strlit("ja-JP");
            reveal_strlit("ko-KR");
        }
        assert(strs(cands@) =~= candidates_for(self.current_language@));
        self.candidate_window.visible = cands.len() > 0;
        self.candidate_window.candidates = cands;
    }

    /// Ends the composition and returns its text.
    pub fn commit(&mut self) -> (r: String)
        ensures
            r@ == old(self).composition(),
            !final(self).composing(),
            final(self).composition() == Seq::<char>::empty(),
            !final(self).window_visible(),
            final(self).language() == old(self).language(),
    {
        let result = self.composition_string.clone();
        self.active = false;
        self.composition_string = String::new();
        self.candidate_window.visible = false;
        result
    }
}

// ---------------------------------------------------------------------------
// Encrypted synchronisation
// ---------------------------------------------------------------------------

/// What a synchronised change is about.
#[derive(Clone, Copy, PartialEq, Eq, Structural, Debug)]
pub enum EntityType {
    Bookmark,
    History,
    Password,
    Tab,
    Setting,
}

/// What a synchronised change does.
#[derive(Clone, Copy, PartialEq, Eq, Structural, Debug)]
pub enum Operation {
    Create,
    Update,
    Delete,
}

/// The state of synchronisation.
pub enum SyncStatus {
    Idle,
    Syncing,
    Error(String),
    LastSync(u64),
}

/// A change waiting to be synchronised.
pub struct SyncChange {
    pub id: String,
    pub entity_type: EntityType,
    pub operation: Operation,
    pub data: Vec<u8>,
    pub timestamp: u64,
    pub device_id: String,
}

/// The synchronisation key a device derives: byte `i` is `7 i + 13`.
pub open spec fn sync_key() -> Seq<u8> {
    Seq::new(32, |i: int| (7 * i + 13) as u8)
}

/// The name under which a kind of change is uploaded.
pub open spec fn entity_name(e: EntityType) -> Seq<char> {
    match e {
        EntityType::Bookmark => "bookmark"@,
        EntityType::History => "history"@,
        EntityType::Password => "password"@,
        EntityType::Tab => "tab"@,
        EntityType::Setting => "setting"@,
    }
}

/// The name under which a kind of change is uploaded.
pub fn entity_label(e: EntityType) -> (r: &'static str)
    ensures
        r@ == entity_name(e),
{
    match e {
        EntityType::Bookmark => "bookmark",
        EntityType::History => "history",
        EntityType::Password => "password",
        EntityType::Tab => "tab",
        EntityType::Setting => "setting",
    }
}

/// The ciphertext of `plaintext`: the bytes of its standard Base64 encoding.
pub open spec fn sealed(plaintext: Seq<u8>) -> Seq<u8> {
    encode_utf8(b64_encode(plaintext))
}

/// End-to-end encrypted synchronisation of local changes.
pub struct SyncEngine {
    device_id: String,
    encryption_key: Vec<u8>,
    sync_server_url: String,
    last_sync_time: Option<u64>,
    pending_changes: Vec<SyncChange>,
    sync_status: SyncStatus,
}

impl SyncEngine {
    /// The device this engine synchronises.
    pub closed spec fn device(self) -> Seq<char> {
        self.device_id@
    }

    /// The encryption key.
    pub closed spec fn key(self) -> Seq<u8> {
        self.encryption_key@
    }

    /// The changes waiting to be synchronised, oldest first.
    pub closed spec fn pending(self) -> Seq<SyncChange> {
        self.pending_changes@
    }

    /// When the last synchronisation happened.
    pub closed spec fn last_sync(self) -> Option<u64> {
        self.last_sync_time
    }

    /// The server changes are sent to.
    pub closed spec fn server(self) -> Seq<char> {
        self.sync_server_url@
    }

    /// An engine for `device_id` with the derived key, nothing pending and
    /// no synchronisation yet.
    pub fn new(device_id: &str) -> (r: Self)
        ensures
            r.device() == device_id@,
            r.key() == sync_key(),
            r.pending() == Seq::<SyncChange>::empty(),
            r.last_sync() is None,
            r.server() == "https://sync.glycerin.browser"@,
    {
        let mut key: Vec<u8> = Vec::new();
        let mut i: u8 = 0;
        while i < 32
            invariant
                i <= 32,
                key@ == Seq::new(i as nat, |k: int| (7 * k + 13) as u8),
            decreases 32 - i,
        {
            key.push(i * 7 + 13);
            i = i + 1;
            assert(key@ =~= Seq::new(i as nat, |k: int| (7 * k + 13) as u8));
        }
        SyncEngine {
            device_id: device_id.to_owned(),
            encryption_key: key,
            sync_server_url: "https://sync.glycerin.browser".to_owned(),
            last_sync_time: None,
            pending_changes: Vec::new(),
            sync_status: SyncStatus::Idle,
        }
    }

    /// Seals `plaintext` for upload: refused when the key is not a valid
    /// AES-256 key, otherwise the bytes of its standard Base64 encoding.
    pub fn encrypt_data(&self, plaintext: &[u8]) -> (r: Result<Vec<u8>, String>)
        requires
            4 * ((plaintext@.len() + 2) / 3) <= isize::MAX,
        ensures
            self.key().len() == 32 ==> (r matches Ok(c) && c@ == sealed(plaintext@)),
            self.key().len() != 32 ==> (r matches Err(e) && e@ == "Invalid key"@),
    {
        if !aes256_accepts_key(self.encryption_key.as_slice()) {
            return Err("Invalid key".to_owned());
        }
        let text = b64_standard_encode(plaintext);
        Ok(utf8_bytes(text.as_str()))
    }

    /// Opens `ciphertext`: its standard Base64 decoding, or an error when it
    /// is not valid Base64.
    pub fn decrypt_data(&self, ciphertext: &[u8]) -> (r: Result<Vec<u8>, String>)
        ensures
            match r {
                Ok(v) => b64_decoded(ciphertext@) == Some(v@),
                Err(e) => b64_decoded(ciphertext@) is None && e@ == "Invalid base64"@,
            },
            forall|x: Seq<u8>| #[trigger] sealed(x) == ciphertext@ ==> (r matches Ok(v) && v@ == x),
    {
        match b64_standard_decode(ciphertext) {
            Some(v) => Ok(v),
            None => Err("Invalid base64".to_owned()),
        }
    }

    /// Queues a change of `data`, stamped with a fresh id, the current time
    /// and this device.
    pub fn queue_change(&mut self, entity: EntityType, op: Operation, data: &[u8])
        ensures
            final(self).pending().len() == old(self).pending().len() + 1,
            final(self).pending().subrange(0, old(self).pending().len() as int) == old(self).pending(),
            ({
                let c = final(self).pending().last();
                &&& c.entity_type == entity
                &&& c.operation == op
                &&& c.data@ == data@
                &&& c.device_id@ == old(self).device()
            }),
            final(self).device() == old(self).device(),
            final(self).key() == old(self).key(),
            final(self).last_sync() == old(self).last_sync(),
    {
        let now = utc_timestamp();
        let timestamp: u64 = #[verifier::truncate] (now as u64);
        self.queue_change_at(entity, op, data, timestamp);
    }

    /// Queues a change of `data` made at `timestamp`, stamped with a fresh id
    /// and this device.
    pub fn queue_change_at(&mut self, entity: EntityType, op: Operation, data: &[u8], timestamp: u64)
        ensures
            final(self).pending().len() == old(self).pending().len() + 1,
            final(self).pending().subrange(0, old(self).pending().len() as int) == old(self).pending(),
            ({
                let c = final(self).pending().last();
                &&& c.entity_type == entity
                &&& c.operation == op
                &&& c.data@ == data@
                &&& c.timestamp == timestamp
                &&& c.device_id@ == old(self).device()
            }),
            final(self).device() == old(self).device(),
            final(self).key() == old(self).key(),
            final(self).last_sync() == old(self).last_sync(),
    {
        let id = new_uuid();
        let change = SyncChange {
            id,
            entity_type: entity,
            operation: op,
            data: vstd::slice::slice_to_vec(data),
            timestamp,
            device_id: self.device_id.clone(),
        };
        self.pending_changes.push(change);
        assert(self.pending().subrange(0, old(self).pending().len() as int) =~= old(self).pending());
    }

    /// Seals every pending change for upload, then clears them and records
    /// the time; returns, per change in order, the name it was uploaded
    /// under or the sealing error.
    pub fn sync_now(&mut self) -> (uploads: Vec<Result<&'static str, String>>)
        requires
            forall|i: int| 0 <= i < old(self).pending().len() ==> 4 * ((#[trigger] old(self).pending()[i].data@.len() + 2) / 3)
                <= isize::MAX,
        ensures
            uploads@.len() == old(self).pending().len(),
            forall|i: int| 0 <= i < uploads@.len() ==> (old(self).key().len() == 32 ==> (#[trigger] uploads@[i] matches Ok(
                n,
            ) && n@ == entity_name(old(self).pending()[i].entity_type))),
            forall|i: int| 0 <= i < uploads@.len() ==> (old(self).key().len() != 32 ==> (#[trigger] uploads@[i] matches Err(
                e,
            ) && e@ == "Invalid key"@)),
            final(self).pending() == Seq::<SyncChange>::empty(),
            final(self).last_sync() is Some,
            final(self).device() == old(self).device(),
            final(self).key() == old(self).key(),
    {
        self.sync_status = SyncStatus::Syncing;
        let mut uploads: Vec<Result<&'static str, String>> = Vec::new();
        let mut i: usize = 0;
        while i < self.pending_changes.len()
            invariant
                i <= self.pending_changes@.len(),
                self.pending_changes@ == old(self).pending_changes@,
                self.encryption_key@ == old(self).encryption_key@,
                self.device_id@ == old(self).device_id@,
                forall|j: int| 0 <= j < self.pending_changes@.len() ==> 4 * ((#[trigger] self.pending_changes@[j].data@.len()
                    + 2) / 3) <= isize::MAX,
                uploads@.len() == i,
                forall|j: int| 0 <= j < i ==> (self.encryption_key@.len() == 32 ==> (#[trigger] uploads@[j] matches Ok(
                    n,
                ) && n@ == entity_name(self.pending_changes@[j].entity_type))),
                forall|j: int| 0 <= j < i ==> (self.encryption_key@.len() != 32 ==> (#[trigger] uploads@[j] matches Err(
                    e,
                ) && e@ == "Invalid key"@)),
            decreases self.pending_changes.len() - i,
        {
            let sealed = self.encrypt_data(self.pending_changes[i].data.as_slice());
            match sealed {
                Ok(_) => {
                    uploads.push(Ok(entity_label(self.pending_changes[i].entity_type)));
                },
                Err(e) => {
                    uploads.push(Err(e));
                },
            }
            i = i + 1;
        }
        self.pending_changes = Vec::new();
        let now = utc_timestamp();
        let t: u64 = #[verifier::truncate] (now as u64);
        self.last_sync_time = Some(t);
        self.sync_status = SyncStatus::LastSync(t);
        uploads
    }
}

/// What is sealed for upload opens to what was sealed.
pub proof fn law_sealed_opens(plaintext: Seq<u8>, ciphertext: Seq<u8>, opened: Result<Vec<u8>, String>)
    requires
        ciphertext == sealed(plaintext),
        forall|x: Seq<u8>| #[trigger] sealed(x) == ciphertext ==> (opened matches Ok(v) && v@ == x),
    ensures
        opened matches Ok(v) && v@ == plaintext,
{
    assert(sealed(plaintext) == ciphertext);
}

// ---------------------------------------------------------------------------
// Password vault
// ---------------------------------------------------------------------------

/// A saved credential.
pub struct PasswordEntry {
    pub id: String,
    pub domain: String,
    pub username: String,
    pub encrypted_password: Vec<u8>,
    pub encrypted_totp_seed: Option<Vec<u8>>,
    pub created_at: u64,
    pub last_used: u64,
    pub tags: Vec<String>,
}

/// The key a credential is saved under: the domain, `:`, the user name.
pub open spec fn vault_key(domain: Seq<char>, username: Seq<char>) -> Seq<char> {
    domain + ":"@ + username
}

/// Saved credentials, the master password's digest, and breach checks.
pub struct PasswordManager {
    vault: Vec<(String, PasswordEntry)>,
    master_password_hash: Option<String>,
    auto_fill_enabled: bool,
    breach_detection: bool,
}

impl PasswordManager {
    /// The saved credentials, by key.
    pub closed spec fn entries(self) -> Map<Seq<char>, PasswordEntry> {
        assoc_map(entries_view(self.vault@))
    }

    /// The master password's digest, Base64-encoded, once set.
    pub closed spec fn master_hash(self) -> Option<Seq<char>> {
        match self.master_password_hash {
            Some(h) => Some(h@),
            None => None,
        }
    }

    /// Whether breach detection is on.
    pub closed spec fn detects_breaches(self) -> bool {
        self.breach_detection
    }

    /// The vault's bookkeeping holds: every key is saved once.
    pub closed spec fn wf(self) -> bool {
        keys_unique(entries_view(self.vault@))
    }

    /// An empty vault with no master password, auto-fill and breach detection on.
    pub fn new() -> (r: Self)
        ensures
            r.wf(),
            r.entries() == Map::<Seq<char>, PasswordEntry>::empty(),
            r.master_hash() is None,
            r.detects_breaches(),
    {
        let r = PasswordManager { vault: Vec::new(), master_password_hash: None, auto_fill_enabled: true, breach_detection: true };
        assert(entries_view(r.vault@) =~= Seq::<(Seq<char>, PasswordEntry)>::empty());
        r
    }

    /// The master password's digest, Base64-encoded, once set.
    pub fn master_hash_text(&self) -> (r: Option<String>)
        ensures
            match r {
                Some(h) => self.master_hash() == Some(h@),
                None => self.master_hash() is None,
            },
    {
        match &self.master_password_hash {
            Some(h) => Some(h.clone()),
            None => None,
        }
    }

    /// Sets the master password: keeps the Base64 encoding of its SHA-256 digest.
    pub fn set_master_password(&mut self, password: &str)
        requires
            encode_utf8(password@).len() < 0x2000_0000_0000_0000,
        ensures
            final(self).master_hash() == Some(b64_encode(sha256_of(encode_utf8(password@)))),
            final(self).entries() == old(self).entries(),
            final(self).wf() == old(self).wf(),
            final(self).detects_breaches() == old(self).detects_breaches(),
    {
        let bytes = utf8_bytes(password);
        let digest = sha256_digest(bytes.as_slice());
        let hash = b64_standard_encode(digest.as_slice());
        self.master_password_hash = Some(hash);
    }

    /// Saves `password` for `username` at `domain`, replacing a credential
    /// saved under the same domain and user name.
    pub fn add_password(&mut self, domain: &str, username: &str, password: &str)
        requires
            old(self).wf(),
        ensures
            final(self).wf(),
            final(self).entries().dom() == old(self).entries().dom().insert(vault_key(domain@, username@)),
            forall|k: Seq<char>| k != vault_key(domain@, username@) ==> #[trigger] final(self).entries()[k]
                == old(self).entries()[k],
            ({
                let e = final(self).entries()[vault_key(domain@, username@)];
                &&& e.domain@ == domain@
                &&& e.username@ == username@
                &&& e.encrypted_password@ == encode_utf8(password@)
                &&& e.encrypted_totp_seed is None
                &&& e.tags@.len() == 0
            }),
            final(self).master_hash() == old(self).master_hash(),
            final(self).detects_breaches() == old(self).detects_breaches(),
    {
        let id = new_uuid();
        let now = utc_timestamp();
        let t: u64 = #[verifier::truncate] (now as u64);
        let entry = PasswordEntry {
            id,
            domain: domain.to_owned(),
            username: username.to_owned(),
            encrypted_password: utf8_bytes(password),
            encrypted_totp_seed: None,
            created_at: t,
            last_used: t,
            tags: Vec::new(),
        };
        let mut key = domain.to_owned();
        key.append(":");
        key.append(username);
        assoc_upsert(&mut self.vault, key, entry);
    }

    /// A saved user name and password for `domain`: some credential saved
    /// for it, its password read back as text; `None` when there is none.
    pub fn get_password(&self, domain: &str) -> (r: Option<(String, String)>)
        requires
            self.wf(),
        ensures
            r is None <==> !exists|k: Seq<char>| #[trigger] self.entries().contains_key(k) && self.entries()[k].domain@
                == domain@,
            r matches Some((u, p)) ==> exists|k: Seq<char>| #[trigger] self.entries().contains_key(k)
                && self.entries()[k].domain@ == domain@ && self.entries()[k].username@ == u@ && p@
                == lossy_utf8(self.entries()[k].encrypted_password@),
    {
        let ghost es = entries_view(self.vault@);
        let mut i: usize = 0;
        while i < self.vault.len()
            invariant
                es == entries_view(self.vault@),
                keys_unique(es),
                i <= self.vault@.len(),
                forall|j: int| 0 <= j < i ==> self.vault@[j].1.domain@ != domain@,
            decreases self.vault.len() - i,
        {
            if str_eq(self.vault[i].1.domain.as_str(), domain) {
                let e = &self.vault[i].1;
                let u = e.username.clone();
                let p = utf8_lossy(e.encrypted_password.as_slice());
                proof {
                    lemma_unique_lookup(es, i as int);
                    assert(self.entries().contains_key(es[i as int].0));
                }
                return Some((u, p));
            }
            i = i + 1;
        }
        proof {
            assert forall|k: Seq<char>| #[trigger] self.entries().contains_key(k) implies self.entries()[k].domain@
                != domain@ by {
                lemma_map_entry(es, k);
                let j = choose|j: int| 0 <= j < es.len() && es[j].0 == k && assoc_map(es)[k] == #[trigger] es[j].1;
                assert(es[j].1 == self.vault@[j].1);
            }
        }
        None
    }

    /// Whether `domain` appears in known breaches: with breach detection on,
    /// a domain containing `example` or `test`.
    pub fn check_breach(&self, domain: &str) -> (b: bool)
        ensures
            b == (self.detects_breaches() && (crate::text::contains_seq(domain@, "example"@)
                || crate::text::contains_seq(domain@, "test"@))),
    {
        self.breach_detection && (str_contains(domain, "example") || str_contains(domain, "test"))
    }
}

// ---------------------------------------------------------------------------
// Tabs shared across devices
// ---------------------------------------------------------------------------

/// What sharing reads of a tab: its id, URL, title and favicon.
pub struct SharedTab {
    pub id: u64,
    pub url: String,
    pub title: String,
    pub favicon: Option<Vec<u8>>,
}

/// A tab open on another device.
pub struct RemoteTab {
    pub url: String,
    pub title: String,
    pub favicon: Option<String>,
    pub timestamp: u64,
    pub device_id: String,
}

impl RemoteTab {
    /// A copy of the tab.
    pub fn duplicate(&self) -> (r: Self)
        ensures
            r.url@ == self.url@,
            r.title@ == self.title@,
            r.favicon == self.favicon,
            r.timestamp == self.timestamp,
            r.device_id@ == self.device_id@,
    {
        RemoteTab {
            url: self.url.clone(),
            title: self.title.clone(),
            favicon: match &self.favicon {
                Some(f) => Some(f.clone()),
                None => None,
            },
            timestamp: self.timestamp,
            device_id: self.device_id.clone(),
        }
    }
}

/// Another device and the tabs shared to it.
pub struct RemoteDevice {
    pub device_id: String,
    pub device_name: String,
    pub device_type: String,
    pub last_seen: u64,
    pub open_tabs: Vec<RemoteTab>,
}

/// A synchronisation session with the known devices.
pub struct SyncSession {
    pub session_id: String,
    pub connected_devices: Vec<String>,
    pub last_sync: u64,
}

/// The favicon text a shared tab carries when it has a favicon.
pub open spec fn shared_favicon() -> Seq<char> {
    "data:image/png;base64,..."@
}

/// Local tabs, the devices tabs can be shared to, and the current session.
pub struct TabSyncManager {
    local_tabs: Vec<SharedTab>,
    remote_devices: Vec<(String, RemoteDevice)>,
    sync_session: Option<SyncSession>,
}

impl TabSyncManager {
    /// The known devices, by id.
    pub closed spec fn devices(self) -> Map<Seq<char>, RemoteDevice> {
        assoc_map(entries_view(self.remote_devices@))
    }

    /// The local tabs.
    pub closed spec fn locals(self) -> Seq<SharedTab> {
        self.local_tabs@
    }

    /// The bookkeeping holds: every device is recorded once.
    pub closed spec fn wf(self) -> bool {
        keys_unique(entries_view(self.remote_devices@))
    }

    /// The current session, if one was started.
    pub closed spec fn session(self) -> Option<SyncSession> {
        self.sync_session
    }

    /// A manager with no tab, device or session.
    pub fn new() -> (r: Self)
        ensures
            r.wf(),
            r.devices() == Map::<Seq<char>, RemoteDevice>::empty(),
            r.locals() == Seq::<SharedTab>::empty(),
            r.session() is None,
    {
        let r = TabSyncManager { local_tabs: Vec::new(), remote_devices: Vec::new(), sync_session: None };
        assert(entries_view(r.remote_devices@) =~= Seq::<(Seq<char>, RemoteDevice)>::empty());
        r
    }

    /// Records device `device_id`, seen now, with no shared tab, replacing
    /// a device of that id.
    pub fn register_device(&mut self, device_id: &str, name: &str, device_type: &str)
        requires
            old(self).wf(),
        ensures
            final(self).wf(),
            final(self).devices().dom() == old(self).devices().dom().insert(device_id@),
            forall|d: Seq<char>| d != device_id@ ==> #[trigger] final(self).devices()[d] == old(self).devices()[d],
            ({
                let dev = final(self).devices()[device_id@];
                &&& dev.device_id@ == device_id@
                &&& dev.device_name@ == name@
                &&& dev.device_type@ == device_type@
                &&& dev.open_tabs@.len() == 0
            }),
            final(self).locals() == old(self).locals(),
    {
        let now = utc_timestamp();
        let device = RemoteDevice {
            device_id: device_id.to_owned(),
            device_name: name.to_owned(),
            device_type: device_type.to_owned(),
            last_seen: #[verifier::truncate] (now as u64),
            open_tabs: Vec::new(),
        };
        assoc_upsert(&mut self.remote_devices, device_id.to_owned(), device);
    }

    /// Shares `tab` to device `target_device`, if it is known: the device
    /// gets the tab's URL and title, a favicon marker when the tab has a
    /// favicon, and the id of the first local tab as the sender.
    pub fn share_tab(&mut self, tab: &SharedTab, target_device: &str)
        requires
            old(self).wf(),
        ensures
            final(self).wf(),
            final(self).devices().dom() == old(self).devices().dom(),
            forall|d: Seq<char>| d != target_device@ ==> #[trigger] final(self).devices()[d] == old(self).devices()[d],
            old(self).devices().contains_key(target_device@) ==> ({
                let before = old(self).devices()[target_device@];
                let after = final(self).devices()[target_device@];
                &&& after.open_tabs@.len() == before.open_tabs@.len() + 1
                &&& after.open_tabs@.subrange(0, before.open_tabs@.len() as int) == before.open_tabs@
                &&& after.open_tabs@.last().url@ == tab.url@
                &&& after.open_tabs@.last().title@ == tab.title@
                &&& (after.open_tabs@.last().favicon matches Some(f) ==> f@ == shared_favicon())
                &&& (after.open_tabs@.last().favicon is Some <==> tab.favicon is Some)
                &&& after.open_tabs@.last().device_id@ == (if old(self).locals().len() > 0 {
                    decimal(old(self).locals()[0].id as nat)
                } else {
                    Seq::<char>::empty()
                })
                &&& after.device_id == before.device_id
                &&& after.device_name == before.device_name
                &&& after.device_type == before.device_type
            }),
            final(self).locals() == old(self).locals(),
    {
        let now = utc_timestamp();
        let t: u64 = #[verifier::truncate] (now as u64);
        let sender = if self.local_tabs.len() > 0 {
            u64_to_decimal(self.local_tabs[0].id)
        } else {
            String::new()
        };
        let remote_tab = RemoteTab {
            url: tab.url.clone(),
            title: tab.title.clone(),
            favicon: match &tab.favicon {
                Some(_) => Some("data:image/png;base64,...".to_owned()),
                None => None,
            },
            timestamp: t,
            device_id: sender,
        };
        match assoc_find(&self.remote_devices, target_device) {
            None => {},
            Some(i) => {
                let ghost es0 = entries_view(self.remote_devices@);
                let placeholder = RemoteDevice {
                    device_id: String::new(),
                    device_name: String::new(),
                    device_type: String::new(),
                    last_seen: 0,
                    open_tabs: Vec::new(),
                };
                let mut device = assoc_replace(&mut self.remote_devices, i, placeholder);
                let ghost before_tabs = device.open_tabs@;
                device.open_tabs.push(remote_tab);
                device.last_seen = t;
                assert(device.open_tabs@.subrange(0, before_tabs.len() as int) =~= before_tabs);
                assoc_replace(&mut self.remote_devices, i, device);
                proof {
                    let es1 = entries_view(self.remote_devices@);
                    assert forall|a: int, b: int| 0 <= a < b < es1.len() implies es1[a].0 != es1[b].0 by {
                        assert(es1[a].0 == es0[a].0);
                        assert(es1[b].0 == es0[b].0);
                    }
                }
            },
        }
    }

    /// The tabs shared to `device_id`, oldest first; none for an unknown device.
    pub fn get_remote_tabs(&self, device_id: &str) -> (r: Vec<RemoteTab>)
        ensures
            self.devices().contains_key(device_id@) ==> r@.len() == self.devices()[device_id@].open_tabs@.len()
                && forall|k: int| 0 <= k < r@.len() ==> (#[trigger] r@[k]).url@
                    == self.devices()[device_id@].open_tabs@[k].url@ && r@[k].title@
                    == self.devices()[device_id@].open_tabs@[k].title@,
            !self.devices().contains_key(device_id@) ==> r@.len() == 0,
    {
        let mut r: Vec<RemoteTab> = Vec::new();
        match assoc_find(&self.remote_devices, device_id) {
            None => {},
            Some(i) => {
                let tabs = &self.remote_devices[i].1.open_tabs;
                let mut k: usize = 0;
                while k < tabs.len()
                    invariant
                        k <= tabs@.len(),
                        r@.len() == k,
                        forall|j: int| 0 <= j < k ==> (#[trigger] r@[j]).url@ == tabs@[j].url@ && r@[j].title@
                            == tabs@[j].title@,
                    decreases tabs.len() - k,
                {
                    r.push(tabs[k].duplicate());
                    k = k + 1;
                }
            },
        }
        r
    }

    /// Starts a session with every known device, under a fresh random id.
    pub fn start_sync_session(&mut self)
        requires
            old(self).wf(),
        ensures
            final(self).wf(),
            final(self).devices() == old(self).devices(),
            final(self).locals() == old(self).locals(),
            final(self).session() matches Some(s) && (forall|d: Seq<char>| strs(s.connected_devices@).contains(d)
                <==> old(self).devices().contains_key(d)) && strs(s.connected_devices@).no_duplicates(),
    {
        let ghost es = entries_view(self.remote_devices@);
        let mut ids: Vec<String> = Vec::new();
        let mut i: usize = 0;
        while i < self.remote_devices.len()
            invariant
                es == entries_view(self.remote_devices@),
                keys_unique(es),
                i <= es.len(),
                strs(ids@) == es.subrange(0, i as int).map_values(|e: (Seq<char>, RemoteDevice)| e.0),
            decreases self.remote_devices.len() - i,
        {
            let id = self.remote_devices[i].0.clone();
            let ghost before = ids@;
            ids.push(id);
            proof {
                assert(strs(ids@) =~= strs(before).push(es[i as int].0));
                assert(es.subrange(0, i + 1).map_values(|e: (Seq<char>, RemoteDevice)| e.0) =~= es.subrange(
                    0,
                    i as int,
                ).map_values(|e: (Seq<char>, RemoteDevice)| e.0).push(es[i as int].0));
            }
            i = i + 1;
        }
        proof {
            assert(es.subrange(0, es.len() as int) =~= es);
            let names = strs(ids@);
            assert forall|d: Seq<char>| names.contains(d) <==> assoc_map(es).contains_key(d) by {
                if names.contains(d) {
                    let j = choose|j: int| 0 <= j < names.len() && names[j] == d;
                    assert(names[j] == es[j].0);
                    lemma_unique_lookup(es, j);
                }
                if assoc_map(es).contains_key(d) {
                    lemma_map_entry(es, d);
                    let j = choose|j: int| 0 <= j < es.len() && es[j].0 == d && assoc_map(es)[d] == #[trigger] es[j].1;
                    assert(names[j] == d);
                }
            }
            assert forall|a: int, b: int| 0 <= a < names.len() && 0 <= b < names.len() && a != b implies names[a]
                != names[b] by {
                assert(names[a] == es[a].0);
                assert(names[b] == es[b].0);
            }
        }
        let now = utc_timestamp();
        let session = SyncSession {
            session_id: new_uuid(),
            connected_devices: ids,
            last_sync: #[verifier::truncate] (now as u64),
        };
        self.sync_session = Some(session);
    }
}

} // verus!
