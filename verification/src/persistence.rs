//! Stored conversations: which ones may be opened, what is read back, and what
//! may be written.

use vstd::prelude::*;
use vstd::utf8::encode_utf8;

use crate::json::{escaped, escaped_all, hex_digit, quote_json, quoted};
use crate::messages::{
    call_views, message_views, opt_content, part_views, ChatMessage, ContentPart, ContentView,
    MessageContent, MessageView, PartView,
};
use crate::paths::{child, path_child};
use crate::text::{
    char_is_control, chars_of, decimal, is_blank, is_control, is_digit, join2, join3, join5,
    opt_view, str_eq, str_is_blank, usize_text,
};

verus! {

pub const SCHEMA_VERSION: u64 = 1;

pub const MAX_ARCHIVE_BYTES: usize = 16777216;

pub const MAX_MESSAGES: usize = 4096;

pub const MAX_TTL_SECONDS: u64 = 2592000;

// ---------------------------------------------------------------------------
// The policy
// ---------------------------------------------------------------------------

/// Where a conversation is kept.
#[derive(Clone, Copy, Debug, PartialEq, Eq, Structural)]
pub enum PersistenceMode {
    Ephemeral,
    Memory,
    Disk,
    Auto,
}

/// Whether a stored conversation is taken up again.
#[derive(Clone, Copy, Debug, PartialEq, Eq, Structural)]
pub enum ReuseMode {
    Disabled,
    Prefer,
    Required,
}

#[derive(Clone, Copy, Debug, PartialEq, Eq, Structural)]
pub struct PersistencePolicy {
    pub mode: PersistenceMode,
    pub reuse: ReuseMode,
    pub ttl_seconds: Option<u64>,
    pub pin: bool,
}

impl Default for PersistencePolicy {
    fn default() -> (r: Self)
        ensures
            r == (PersistencePolicy {
                mode: PersistenceMode::Auto,
                reuse: ReuseMode::Prefer,
                ttl_seconds: None,
                pin: false,
            }),
    {
        PersistencePolicy {
            mode: PersistenceMode::Auto,
            reuse: ReuseMode::Prefer,
            ttl_seconds: None,
            pin: false,
        }
    }
}

pub open spec fn is_durable(policy: PersistencePolicy) -> bool {
    policy.mode is Disk || policy.mode is Auto
}

/// A time to live that a policy may have.
pub open spec fn ttl_is_valid(ttl: Option<u64>) -> bool {
    ttl matches Some(ttl) ==> 1 <= ttl <= MAX_TTL_SECONDS
}

/// A name of at most so many bytes, with something in it and no control
/// characters.
pub open spec fn is_label(value: Seq<char>, max: nat) -> bool {
    !is_blank(value) && encode_utf8(value).len() <= max && forall|i: int|
        0 <= i < value.len() ==> !is_control(#[trigger] value[i])
}

pub open spec fn label_message(label: Seq<char>, max: nat) -> Seq<char> {
    "chat "@ + label + " must be nonempty, at most "@ + decimal(max)
        + " bytes and contain no control characters"@
}

fn has_control(value: &str) -> (r: bool)
    ensures
        r == exists|i: int| 0 <= i < value@.len() && is_control(#[trigger] value@[i]),
{
    let chars = chars_of(value);
    let mut i: usize = 0;
    while i < chars.len()
        invariant
            i <= chars@.len(),
            chars@ == value@,
            forall|j: int| 0 <= j < i ==> !is_control(#[trigger] value@[j]),
        decreases chars@.len() - i,
    {
        if char_is_control(chars[i]) {
            assert(is_control(value@[i as int]));
            return true;
        }
        i = i + 1;
    }
    false
}

pub fn validate_label(value: &str, label: &str, max: usize) -> (r: Result<(), String>)
    ensures
        match r {
            Ok(_) => is_label(value@, max as nat),
            Err(message) => !is_label(value@, max as nat) && message@ == label_message(
                label@,
                max as nat,
            ),
        },
{
    if str_is_blank(value) || value.as_bytes().len() > max || has_control(value) {
        let bytes = usize_text(max);
        return Err(
            join5(
                "chat ",
                label,
                " must be nonempty, at most ",
                bytes.as_str(),
                " bytes and contain no control characters",
            ),
        );
    }
    Ok(())
}

/// What is wrong with opening a conversation, the first thing first.
pub open spec fn open_error(session: Seq<char>, model: Seq<char>, policy: PersistencePolicy) -> Option<
    Seq<char>,
> {
    if !is_label(session, 256) {
        Some(label_message("session"@, 256))
    } else if !is_label(model, 1024) {
        Some(label_message("model"@, 1024))
    } else if policy.pin {
        Some("chat history does not support persistence pinning"@)
    } else if !ttl_is_valid(policy.ttl_seconds) {
        Some("chat persistence TTL must be from 1 to 2592000 seconds"@)
    } else if !is_durable(policy) && policy.reuse is Required {
        Some("required chat history reuse needs disk or auto persistence mode"@)
    } else {
        None
    }
}

/// Whether a conversation may be opened, and whether it is stored on disk.
pub fn check_open(session: &str, model: &str, policy: PersistencePolicy) -> (r: Result<bool, String>)
    ensures
        match r {
            Ok(stored) => open_error(session@, model@, policy) is None && stored == is_durable(
                policy,
            ),
            Err(message) => open_error(session@, model@, policy) == Some(message@),
        },
{
    match validate_label(session, "session", 256) {
        Ok(()) => {},
        Err(message) => {
            return Err(message);
        },
    }
    match validate_label(model, "model", 1024) {
        Ok(()) => {},
        Err(message) => {
            return Err(message);
        },
    }
    if policy.pin {
        return Err("chat history does not support persistence pinning".to_owned());
    }
    if let Some(ttl) = policy.ttl_seconds {
        if ttl == 0 || ttl > MAX_TTL_SECONDS {
            return Err("chat persistence TTL must be from 1 to 2592000 seconds".to_owned());
        }
    }
    let durable = policy.mode == PersistenceMode::Disk || policy.mode == PersistenceMode::Auto;
    if !durable && policy.reuse == ReuseMode::Required {
        return Err("required chat history reuse needs disk or auto persistence mode".to_owned());
    }
    Ok(durable)
}

// ---------------------------------------------------------------------------
// The identity of a conversation
// ---------------------------------------------------------------------------

/// The SHA-256 of bytes, in hexadecimal.
pub uninterp spec fn sha256_text(bytes: Seq<u8>) -> Seq<char>;

pub open spec fn is_hex_char(c: char) -> bool {
    is_digit(c) || ('a' <= c && c <= 'f')
}

/// `sha2::Sha256::digest` of bytes, written with `{:x}`: thirty-two bytes, two
/// lower-case hexadecimal digits each, that depend on nothing but the input.
/// Which digits they are is left unsaid.
#[verifier::external_body]
fn sha256_hex(bytes: &[u8]) -> (r: String)
    ensures
        r@ == sha256_text(bytes@),
        r@.len() == 64,
        forall|i: int| 0 <= i < r@.len() ==> is_hex_char(#[trigger] r@[i]),
{
    format!("{:x}", <sha2::Sha256 as sha2::Digest>::digest(bytes))
}

/// A model and a session as a JSON list of two strings.
pub open spec fn identity_text(model: Seq<char>, session: Seq<char>) -> Seq<char> {
    "["@ + quoted(model) + ","@ + quoted(session) + "]"@
}

/// What the files of a conversation are named after.
pub open spec fn fingerprint(model: Seq<char>, session: Seq<char>) -> Seq<char> {
    sha256_text(encode_utf8(identity_text(model, session)))
}

/// The name that the files of a conversation have in common.
pub fn session_fingerprint(model: &str, session: &str) -> (r: String)
    ensures
        r@ == fingerprint(model@, session@),
        r@.len() == 64,
        forall|i: int| 0 <= i < r@.len() ==> is_hex_char(#[trigger] r@[i]),
{
    let first = quote_json(model);
    let second = quote_json(session);
    let text = join5("[", first.as_str(), ",", second.as_str(), "]");
    sha256_hex(text.as_str().as_bytes())
}

/// The files of a conversation.
#[derive(Debug)]
pub struct SessionPaths {
    pub archive: String,
    pub lock: String,
    pub cache: String,
}

pub fn session_paths(root: &str, print: &str) -> (r: SessionPaths)
    ensures
        r.archive@ == child(root@, print@ + ".json"@),
        r.lock@ == child(root@, print@ + ".lock"@),
        r.cache@ == child(root@, print@ + ".cache"@),
{
    let archive = join2(print, ".json");
    let lock = join2(print, ".lock");
    let cache = join2(print, ".cache");
    SessionPaths {
        archive: path_child(root, archive.as_str()),
        lock: path_child(root, lock.as_str()),
        cache: path_child(root, cache.as_str()),
    }
}

proof fn lemma_escaped(c: char, d: char, u: Seq<char>, v: Seq<char>)
    requires
        escaped(c) + u == escaped(d) + v,
    ensures
        c == d,
        u == v,
{
    let x = escaped(c) + u;
    let y = escaped(d) + v;
    assert(x[0] == escaped(c)[0]);
    assert(y[0] == escaped(d)[0]);
    if escaped(c).len() > 1 || escaped(d).len() > 1 {
        assert(escaped(c).len() > 1 && escaped(d).len() > 1);
        assert(x[1] == escaped(c)[1]);
        assert(y[1] == escaped(d)[1]);
        if escaped(c).len() == 6 || escaped(d).len() == 6 {
            assert(escaped(c).len() == 6 && escaped(d).len() == 6);
            assert(x[4] == escaped(c)[4] && y[4] == escaped(d)[4]);
            assert(x[5] == escaped(c)[5] && y[5] == escaped(d)[5]);
            let a = c as int;
            let b = d as int;
            assert(hex_digit(a / 16) == hex_digit(b / 16));
            assert(hex_digit(a % 16) == hex_digit(b % 16));
            lemma_hex_digit(a / 16, b / 16);
            lemma_hex_digit(a % 16, b % 16);
            assert(a == b);
        }
    }
    let n = escaped(c).len() as int;
    assert(escaped(d).len() == n);
    assert(u =~= x.skip(n));
    assert(v =~= y.skip(n));
}

proof fn lemma_hex_digit(a: int, b: int)
    requires
        0 <= a < 16,
        0 <= b < 16,
        hex_digit(a) == hex_digit(b),
    ensures
        a == b,
{
}

proof fn lemma_escaped_start(c: char)
    ensures
        escaped(c).len() > 0,
        escaped(c)[0] != '"',
{
}

/// The end of an escaped text is where its closing quote is.
proof fn lemma_escaped_all(a: Seq<char>, b: Seq<char>, x: Seq<char>, y: Seq<char>)
    requires
        escaped_all(a) + seq!['"'] + x == escaped_all(b) + seq!['"'] + y,
    ensures
        a == b,
        x == y,
    decreases a.len(),
{
    let left = escaped_all(a) + seq!['"'] + x;
    let right = escaped_all(b) + seq!['"'] + y;
    if a.len() == 0 && b.len() == 0 {
        assert(a =~= b);
        assert(left.skip(1) =~= x);
        assert(right.skip(1) =~= y);
    } else if a.len() == 0 {
        lemma_escaped_start(b[0]);
        assert(left[0] == '"');
        assert(right[0] == escaped(b[0])[0]);
    } else if b.len() == 0 {
        lemma_escaped_start(a[0]);
        assert(right[0] == '"');
        assert(left[0] == escaped(a[0])[0]);
    } else {
        let u = escaped_all(a.drop_first()) + seq!['"'] + x;
        let v = escaped_all(b.drop_first()) + seq!['"'] + y;
        assert(left =~= escaped(a[0]) + u);
        assert(right =~= escaped(b[0]) + v);
        lemma_escaped(a[0], b[0], u, v);
        lemma_escaped_all(a.drop_first(), b.drop_first(), x, y);
        assert(a =~= seq![a[0]] + a.drop_first());
        assert(b =~= seq![b[0]] + b.drop_first());
    }
}

/// Different models and sessions have different identities: no name can be
/// chosen so that it reads as another pair.
pub proof fn identities_are_distinct(
    model: Seq<char>,
    session: Seq<char>,
    other_model: Seq<char>,
    other_session: Seq<char>,
)
    requires
        identity_text(model, session) == identity_text(other_model, other_session),
    ensures
        model == other_model,
        session == other_session,
{
    reveal_strlit("[");
    reveal_strlit(",");
    reveal_strlit("]");
    let x = seq![','] + quoted(session) + seq![']'];
    let y = seq![','] + quoted(other_session) + seq![']'];
    let left = escaped_all(model) + seq!['"'] + x;
    let right = escaped_all(other_model) + seq!['"'] + y;
    let a = identity_text(model, session);
    let b = identity_text(other_model, other_session);
    assert(a.skip(2) =~= left);
    assert(b.skip(2) =~= right);
    lemma_escaped_all(model, other_model, x, y);
    let p = escaped_all(session) + seq!['"'] + seq![']'];
    let q = escaped_all(other_session) + seq!['"'] + seq![']'];
    assert(x.skip(2) =~= p);
    assert(y.skip(2) =~= q);
    lemma_escaped_all(session, other_session, seq![']'], seq![']']);
}

/// No name leads a file of a conversation out of its directory: a fingerprint,
/// which is made of hexadecimal digits, holds no separator and no dot.
pub proof fn fingerprints_are_plain(print: Seq<char>)
    requires
        forall|i: int| 0 <= i < print.len() ==> is_hex_char(#[trigger] print[i]),
    ensures
        !print.contains('/'),
        !print.contains('\\'),
        !print.contains('.'),
        !print.contains(':'),
        !(print + ".json"@).contains('/') && !(print + ".json"@).contains('\\'),
        !(print + ".lock"@).contains('/') && !(print + ".lock"@).contains('\\'),
        !(print + ".cache"@).contains('/') && !(print + ".cache"@).contains('\\'),
{
    reveal_strlit(".json");
    reveal_strlit(".lock");
    reveal_strlit(".cache");
}

// ---------------------------------------------------------------------------
// Messages that may be stored
// ---------------------------------------------------------------------------

pub open spec fn is_known_role(role: Seq<char>) -> bool {
    role == "system"@ || role == "developer"@ || role == "user"@ || role == "assistant"@ || role
        == "tool"@
}

pub open spec fn part_says_something(part: PartView) -> bool {
    (part.text matches Some(text) && !is_blank(text)) || part.image_url is Some
}

pub open spec fn says_something(content: Option<ContentView>) -> bool {
    match content {
        Some(ContentView::Text(text)) => !is_blank(text),
        Some(ContentView::Parts(parts)) => exists|i: int|
            0 <= i < parts.len() && part_says_something(#[trigger] parts[i]),
        None => false,
    }
}

/// An answer: something that is said, or a tool that is called.
pub open spec fn is_answer(m: MessageView) -> bool {
    m.role == "assistant"@ && (says_something(m.content) || (m.tool_calls matches Some(calls)
        && calls.len() > 0))
}

/// What is wrong with storing these messages, the first thing first.
pub open spec fn messages_error(messages: Seq<MessageView>) -> Option<Seq<char>> {
    if messages.len() == 0 || messages.len() > MAX_MESSAGES {
        Some("saved chat history must contain from 1 to 4096 messages"@)
    } else if exists|i: int|
        0 <= i < messages.len() && !is_known_role((#[trigger] messages[i]).role) {
        Some("saved chat history contains an unsupported message role"@)
    } else if !is_answer(messages.last()) {
        Some("chat history must end with a completed assistant turn"@)
    } else {
        None
    }
}

fn role_is_known(role: &str) -> (r: bool)
    ensures
        r == is_known_role(role@),
{
    str_eq(role, "system") || str_eq(role, "developer") || str_eq(role, "user") || str_eq(
        role,
        "assistant",
    ) || str_eq(role, "tool")
}

fn some_part_says_something(parts: &Vec<ContentPart>) -> (r: bool)
    ensures
        r == exists|i: int|
            0 <= i < parts@.len() && part_says_something(#[trigger] part_views(parts@)[i]),
{
    let ghost all = part_views(parts@);
    let mut i: usize = 0;
    while i < parts.len()
        invariant
            i <= parts@.len(),
            all == part_views(parts@),
            forall|j: int| 0 <= j < i ==> !part_says_something(#[trigger] all[j]),
        decreases parts@.len() - i,
    {
        assert(all[i as int] == parts@[i as int]@);
        let said = match &parts[i].text {
            Some(text) => !str_is_blank(text.as_str()),
            None => false,
        };
        if said || parts[i].image_url.is_some() {
            assert(part_says_something(all[i as int]));
            return true;
        }
        i = i + 1;
    }
    false
}

fn content_says_something(content: &Option<MessageContent>) -> (r: bool)
    ensures
        r == says_something(opt_content(*content)),
{
    let content = match content {
        Some(content) => content,
        None => {
            return false;
        },
    };
    match content {
        MessageContent::Text(text) => {
            assert(content@ == ContentView::Text(text@));
            assert(says_something(Some(content@)) == !is_blank(text@));
            !str_is_blank(text.as_str())
        },
        MessageContent::Parts(parts) => {
            let said = some_part_says_something(parts);
            proof {
                let all = part_views(parts@);
                assert(all.len() == parts@.len());
                assert(content@ == ContentView::Parts(all));
                if said {
                    let i = choose|i: int|
                        0 <= i < parts@.len() && part_says_something(
                            #[trigger] part_views(parts@)[i],
                        );
                    assert(part_says_something(all[i]));
                }
                assert(said == says_something(Some(content@)));
            }
            said
        },
    }
}

pub fn validate_messages(messages: &Vec<ChatMessage>) -> (r: Result<(), String>)
    ensures
        match r {
            Ok(_) => messages_error(message_views(messages@)) is None,
            Err(message) => messages_error(message_views(messages@)) == Some(message@),
        },
{
    let ghost all = message_views(messages@);
    if messages.len() == 0 || messages.len() > MAX_MESSAGES {
        return Err("saved chat history must contain from 1 to 4096 messages".to_owned());
    }
    let mut i: usize = 0;
    while i < messages.len()
        invariant
            i <= messages@.len(),
            all == message_views(messages@),
            0 < messages@.len() <= MAX_MESSAGES,
            forall|j: int| 0 <= j < i ==> is_known_role((#[trigger] all[j]).role),
        decreases messages@.len() - i,
    {
        assert(all[i as int] == messages@[i as int]@);
        if !role_is_known(messages[i].role.as_str()) {
            assert(!is_known_role(all[i as int].role));
            return Err("saved chat history contains an unsupported message role".to_owned());
        }
        i = i + 1;
    }
    let last = &messages[messages.len() - 1];
    assert(all.last() == last@);
    let said = content_says_something(&last.content);
    let called = match &last.tool_calls {
        Some(calls) => calls.len() > 0,
        None => false,
    };
    proof {
        if let Some(calls) = &last.tool_calls {
            assert(call_views(calls@).len() == calls@.len());
        }
    }
    if !str_eq(last.role.as_str(), "assistant") || (!said && !called) {
        return Err("chat history must end with a completed assistant turn".to_owned());
    }
    Ok(())
}

// ---------------------------------------------------------------------------
// Archives
// ---------------------------------------------------------------------------

/// A stored conversation.
#[derive(Debug)]
pub struct ChatArchive {
    pub schema_version: u64,
    pub session_fingerprint: String,
    pub updated_unix_seconds: u64,
    pub expires_unix_seconds: Option<u64>,
    pub messages: Vec<ChatMessage>,
}

pub ghost struct ArchiveView {
    pub schema_version: u64,
    pub session_fingerprint: Seq<char>,
    pub updated: u64,
    pub expires: Option<u64>,
    pub messages: Seq<MessageView>,
}

impl ChatArchive {
    pub open spec fn view(&self) -> ArchiveView {
        ArchiveView {
            schema_version: self.schema_version,
            session_fingerprint: self.session_fingerprint@,
            updated: self.updated_unix_seconds,
            expires: self.expires_unix_seconds,
            messages: message_views(self.messages@),
        }
    }
}

/// What is wrong with an archive, the first thing first.
pub open spec fn archive_error(archive: ArchiveView, print: Seq<char>) -> Option<Seq<char>> {
    if archive.schema_version != SCHEMA_VERSION || archive.session_fingerprint != print {
        Some("saved chat history has an incompatible schema or session identity"@)
    } else if archive.expires matches Some(expiry) && expiry <= archive.updated {
        Some("saved chat history has invalid expiry metadata"@)
    } else {
        messages_error(archive.messages)
    }
}

/// Whether an archive was written for this conversation, in full.
pub fn check_archive(archive: &ChatArchive, print: &str) -> (r: Result<(), String>)
    ensures
        match r {
            Ok(_) => archive_error(archive@, print@) is None,
            Err(message) => archive_error(archive@, print@) == Some(message@),
        },
{
    if archive.schema_version != SCHEMA_VERSION || !str_eq(
        archive.session_fingerprint.as_str(),
        print,
    ) {
        return Err(
            "saved chat history has an incompatible schema or session identity".to_owned(),
        );
    }
    if let Some(expiry) = archive.expires_unix_seconds {
        if expiry <= archive.updated_unix_seconds {
            return Err("saved chat history has invalid expiry metadata".to_owned());
        }
    }
    validate_messages(&archive.messages)
}

/// An archive of this many bytes may be read.
pub fn check_archive_size(bytes: u64) -> (r: Result<(), String>)
    ensures
        match r {
            Ok(_) => bytes <= MAX_ARCHIVE_BYTES,
            Err(message) => bytes > MAX_ARCHIVE_BYTES && message@
                == "saved chat history exceeds 16 MiB"@,
        },
{
    if bytes > MAX_ARCHIVE_BYTES as u64 {
        return Err("saved chat history exceeds 16 MiB".to_owned());
    }
    Ok(())
}

// ---------------------------------------------------------------------------
// Opening
// ---------------------------------------------------------------------------

/// Whether the archive of a stored conversation has to be read.
pub fn needs_archive(policy: PersistencePolicy, exists_on_disk: bool) -> (r: bool)
    ensures
        r == (!(policy.reuse is Disabled) && exists_on_disk),
{
    policy.reuse != ReuseMode::Disabled && exists_on_disk
}

/// A conversation as it was opened.
#[derive(Debug)]
pub struct OpenedHistory {
    pub resumed: bool,
    pub notice: Option<String>,
    pub messages: Vec<ChatMessage>,
}

pub ghost struct OpenedView {
    pub resumed: bool,
    pub notice: Option<Seq<char>>,
    pub messages: Seq<MessageView>,
}

impl OpenedHistory {
    pub open spec fn view(&self) -> OpenedView {
        OpenedView {
            resumed: self.resumed,
            notice: opt_view(self.notice),
            messages: message_views(self.messages@),
        }
    }
}

pub open spec fn fresh(notice: Option<Seq<char>>) -> OpenedView {
    OpenedView { resumed: false, notice, messages: Seq::empty() }
}

pub open spec fn invalid_history() -> Seq<char> {
    "saved chat history is invalid; choose another --session or explicitly start over with --persistence-reuse disabled"@
}

/// What opening a stored conversation comes to. `found` is its archive, where
/// there is one, or why it could not be read; it counts only where the policy
/// allows reuse.
pub open spec fn opened(
    policy: PersistencePolicy,
    found: Option<Result<ArchiveView, Seq<char>>>,
    print: Seq<char>,
    now: u64,
) -> Result<OpenedView, Seq<char>> {
    if policy.reuse is Disabled {
        Ok(fresh(Some("starting a new chat history with reuse disabled"@)))
    } else {
        match found {
            None => if policy.reuse is Required {
                Err("required chat history was not found for this model and session"@)
            } else {
                Ok(fresh(None))
            },
            Some(Err(reason)) => Err(invalid_history() + ": "@ + reason),
            Some(Ok(archive)) => match archive_error(archive, print) {
                Some(reason) => Err(invalid_history() + ": "@ + reason),
                None => if archive.expires matches Some(expiry) && expiry <= now {
                    if policy.reuse is Required {
                        Err("required chat history has expired"@)
                    } else {
                        Ok(
                            fresh(
                                Some(
                                    "saved chat history has expired; starting a new conversation"@,
                                ),
                            ),
                        )
                    }
                } else {
                    Ok(
                        OpenedView { resumed: true, notice: None, messages: archive.messages },
                    )
                },
            },
        }
    }
}

pub open spec fn found_view(found: Option<Result<ChatArchive, String>>) -> Option<
    Result<ArchiveView, Seq<char>>,
> {
    match found {
        None => None,
        Some(Ok(archive)) => Some(Ok(archive@)),
        Some(Err(reason)) => Some(Err(reason@)),
    }
}

fn start_fresh(notice: Option<&str>) -> (r: OpenedHistory)
    ensures
        r@ == fresh(crate::text::opt_str_view(notice)),
{
    let messages: Vec<ChatMessage> = Vec::new();
    assert(message_views(messages@) =~= Seq::<MessageView>::empty());
    OpenedHistory { resumed: false, notice: crate::text::owned_opt(notice), messages }
}

fn refuse_history(reason: &str) -> (r: String)
    ensures
        r@ == invalid_history() + ": "@ + reason@,
{
    join3(
        "saved chat history is invalid; choose another --session or explicitly start over with --persistence-reuse disabled",
        ": ",
        reason,
    )
}

/// Opens a stored conversation.
pub fn open_history(
    policy: PersistencePolicy,
    found: Option<Result<ChatArchive, String>>,
    print: &str,
    now: u64,
) -> (r: Result<OpenedHistory, String>)
    ensures
        match r {
            Ok(history) => opened(policy, found_view(found), print@, now) == Ok::<
                OpenedView,
                Seq<char>,
            >(history@),
            Err(message) => opened(policy, found_view(found), print@, now) == Err::<
                OpenedView,
                Seq<char>,
            >(message@),
        },
{
    if policy.reuse == ReuseMode::Disabled {
        return Ok(start_fresh(Some("starting a new chat history with reuse disabled")));
    }
    let archive = match found {
        None => {
            if policy.reuse == ReuseMode::Required {
                return Err(
                    "required chat history was not found for this model and session".to_owned(),
                );
            }
            return Ok(start_fresh(None));
        },
        Some(Err(reason)) => {
            return Err(refuse_history(reason.as_str()));
        },
        Some(Ok(archive)) => archive,
    };
    match check_archive(&archive, print) {
        Ok(()) => {},
        Err(reason) => {
            return Err(refuse_history(reason.as_str()));
        },
    }
    let expired = match archive.expires_unix_seconds {
        Some(expiry) => expiry <= now,
        None => false,
    };
    if expired {
        if policy.reuse == ReuseMode::Required {
            return Err("required chat history has expired".to_owned());
        }
        return Ok(
            start_fresh(Some("saved chat history has expired; starting a new conversation")),
        );
    }
    Ok(OpenedHistory { resumed: true, notice: None, messages: archive.messages })
}

// ---------------------------------------------------------------------------
// Saving
// ---------------------------------------------------------------------------

/// The archive of these messages, or why there is none.
pub open spec fn archived(
    messages: Seq<MessageView>,
    print: Seq<char>,
    ttl: Option<u64>,
    now: u64,
) -> Result<ArchiveView, Seq<char>> {
    match messages_error(messages) {
        Some(message) => Err(message),
        None => if ttl matches Some(ttl) && now + ttl > u64::MAX {
            Err("chat history expiry exceeds clock range"@)
        } else {
            Ok(
                ArchiveView {
                    schema_version: SCHEMA_VERSION,
                    session_fingerprint: print,
                    updated: now,
                    expires: match ttl {
                        Some(ttl) => Some((now + ttl) as u64),
                        None => None,
                    },
                    messages,
                },
            )
        },
    }
}

/// Makes the archive of a completed turn.
pub fn save_at(messages: Vec<ChatMessage>, print: &str, ttl: Option<u64>, now: u64) -> (r: Result<
    ChatArchive,
    String,
>)
    ensures
        match r {
            Ok(archive) => archived(message_views(messages@), print@, ttl, now) == Ok::<
                ArchiveView,
                Seq<char>,
            >(archive@),
            Err(message) => archived(message_views(messages@), print@, ttl, now) == Err::<
                ArchiveView,
                Seq<char>,
            >(message@),
        },
{
    match validate_messages(&messages) {
        Ok(()) => {},
        Err(message) => {
            return Err(message);
        },
    }
    let expires: Option<u64> = match ttl {
        Some(ttl) => match now.checked_add(ttl) {
            Some(expiry) => Some(expiry),
            None => {
                return Err("chat history expiry exceeds clock range".to_owned());
            },
        },
        None => None,
    };
    Ok(
        ChatArchive {
            schema_version: SCHEMA_VERSION,
            session_fingerprint: print.to_owned(),
            updated_unix_seconds: now,
            expires_unix_seconds: expires,
            messages,
        },
    )
}

/// What was saved is what is read: until it expires, a conversation that was
/// stored is opened with exactly its messages.
pub proof fn saved_conversations_are_resumed(
    messages: Seq<MessageView>,
    print: Seq<char>,
    ttl: Option<u64>,
    saved: u64,
    policy: PersistencePolicy,
    now: u64,
)
    requires
        archived(messages, print, ttl, saved) is Ok,
        ttl_is_valid(ttl),
        !(policy.reuse is Disabled),
        ttl matches Some(ttl) ==> now < saved + ttl,
    ensures
        opened(
            policy,
            Some(Ok(archived(messages, print, ttl, saved)->Ok_0)),
            print,
            now,
        ) == Ok::<OpenedView, Seq<char>>(
            (OpenedView { resumed: true, notice: None, messages }),
        ),
{
}

/// An expired conversation is never taken up again.
pub proof fn expired_conversations_are_not_resumed(
    archive: ArchiveView,
    print: Seq<char>,
    policy: PersistencePolicy,
    now: u64,
)
    requires
        archive.expires matches Some(expiry) && expiry <= now,
    ensures
        opened(policy, Some(Ok(archive)), print, now) matches Ok(history) ==> !history.resumed
            && history.messages.len() == 0,
{
}

/// Where reuse is required, nothing else is opened.
pub proof fn required_reuse_resumes(
    found: Option<Result<ArchiveView, Seq<char>>>,
    print: Seq<char>,
    policy: PersistencePolicy,
    now: u64,
)
    requires
        policy.reuse is Required,
    ensures
        opened(policy, found, print, now) matches Ok(history) ==> history.resumed && (found
            matches Some(Ok(archive)) && history.messages == archive.messages),
{
}

/// The archive of one conversation is never opened as that of another.
pub proof fn archives_are_not_mixed_up(
    archive: ArchiveView,
    print: Seq<char>,
    policy: PersistencePolicy,
    now: u64,
)
    requires
        archive.session_fingerprint != print,
    ensures
        opened(policy, Some(Ok(archive)), print, now) matches Ok(history) ==> !history.resumed,
{
}

/// Where the archive of a conversation stands.
pub open spec fn archive_path(root: Seq<char>, model: Seq<char>, session: Seq<char>) -> Seq<char> {
    child(root, fingerprint(model, session) + ".json"@)
}

/// The archive at a path of a disk.
pub open spec fn archive_at(disk: Map<Seq<char>, ArchiveView>, path: Seq<char>) -> Option<
    Result<ArchiveView, Seq<char>>,
> {
    if disk.contains_key(path) {
        Some(Ok(disk[path]))
    } else {
        None
    }
}

/// Conversations of other models and sessions stand in the same directory under
/// other names, and what one stores changes nothing for another: one that was not
/// stored before is opened empty. The identities of different pairs differ (see
/// `identities_are_distinct`); pairs whose digests agree all the same are left out.
pub proof fn conversations_are_isolated(
    root: Seq<char>,
    model: Seq<char>,
    session: Seq<char>,
    other_model: Seq<char>,
    other_session: Seq<char>,
    disk: Map<Seq<char>, ArchiveView>,
    archive: ArchiveView,
    policy: PersistencePolicy,
    now: u64,
)
    requires
        fingerprint(model, session) != fingerprint(other_model, other_session),
    ensures
        ({
            let own = archive_path(root, model, session);
            let other = archive_path(root, other_model, other_session);
            let print = fingerprint(other_model, other_session);
            let found = archive_at(disk.insert(own, archive), other);
            &&& own != other
            &&& child(root, fingerprint(model, session) + ".lock"@) != child(root, print + ".lock"@)
            &&& child(root, fingerprint(model, session) + ".cache"@) != child(
                root,
                print + ".cache"@,
            )
            &&& found == archive_at(disk, other)
            &&& !disk.contains_key(other) && !(policy.reuse is Required) ==> (opened(
                policy,
                found,
                print,
                now,
            ) matches Ok(history) && !history.resumed && history.messages.len() == 0)
        }),
{
    let print = fingerprint(model, session);
    let other = fingerprint(other_model, other_session);
    lemma_children_differ(root, print, other, ".json"@);
    lemma_children_differ(root, print, other, ".lock"@);
    lemma_children_differ(root, print, other, ".cache"@);
}

proof fn lemma_children_differ(root: Seq<char>, a: Seq<char>, b: Seq<char>, ending: Seq<char>)
    requires
        a != b,
    ensures
        child(root, a + ending) != child(root, b + ending),
{
    reveal_strlit("/");
    let x = child(root, a + ending);
    let y = child(root, b + ending);
    let n: int = if root.len() == 0 {
        0
    } else if root.last() == '/' {
        root.len() as int
    } else {
        (root.len() + 1) as int
    };
    assert(x.skip(n) =~= a + ending);
    assert(y.skip(n) =~= b + ending);
    if x == y {
        assert((a + ending).len() == (b + ending).len());
        assert(a =~= (a + ending).take(a.len() as int));
        assert(b =~= (b + ending).take(a.len() as int));
    }
}

/// Bytes up to the size of an archive.
pub struct BoundedBytes {
    pub bytes: Vec<u8>,
}

impl BoundedBytes {
    pub open spec fn wf(&self) -> bool {
        self.bytes@.len() <= MAX_ARCHIVE_BYTES
    }

    pub fn new() -> (r: Self)
        ensures
            r.wf(),
            r.bytes@ == Seq::<u8>::empty(),
    {
        BoundedBytes { bytes: Vec::new() }
    }

    /// Takes all of the bytes, or none where they do not fit.
    pub fn write(&mut self, more: &[u8]) -> (r: Result<usize, String>)
        requires
            old(self).wf(),
        ensures
            final(self).wf(),
            match r {
                Ok(n) => n == more@.len() && final(self).bytes@ == old(self).bytes@ + more@,
                Err(message) => old(self).bytes@.len() + more@.len() > MAX_ARCHIVE_BYTES
                    && *final(self) == *old(self) && message@ == "chat history exceeds 16 MiB"@,
            },
    {
        let room: usize = MAX_ARCHIVE_BYTES - self.bytes.len();
        if more.len() > room {
            return Err("chat history exceeds 16 MiB".to_owned());
        }
        self.bytes.extend_from_slice(more);
        Ok(more.len())
    }
}

// ---------------------------------------------------------------------------
// Names and kinds of files
// ---------------------------------------------------------------------------

pub open spec fn hex_of(bytes: Seq<u8>) -> Seq<char>
    decreases bytes.len(),
{
    if bytes.len() == 0 {
        Seq::empty()
    } else {
        hex_of(bytes.drop_last()).push(hex_digit(bytes.last() as int / 16)).push(
            hex_digit(bytes.last() as int % 16),
        )
    }
}

fn hex_char(n: u8) -> (r: char)
    requires
        n < 16,
    ensures
        r == hex_digit(n as int),
{
    if n < 10 {
        (n + 48u8) as char
    } else {
        (n + 87u8) as char
    }
}

/// The name of the file that an archive is written to before it takes the place
/// of the old one.
pub fn staging_name(print: &str, suffix: &Vec<u8>) -> (r: String)
    ensures
        r@ == "."@ + print@ + "-"@ + hex_of(suffix@) + ".tmp"@,
{
    let mut digits = String::new();
    let mut i: usize = 0;
    assert(suffix@.take(0) =~= Seq::empty());
    assert(digits@ =~= Seq::<char>::empty());
    while i < suffix.len()
        invariant
            i <= suffix@.len(),
            digits@ == hex_of(suffix@.take(i as int)),
        decreases suffix@.len() - i,
    {
        assert(suffix@.take(i + 1).drop_last() =~= suffix@.take(i as int));
        let b: u8 = suffix[i];
        digits.push(hex_char(b / 16));
        digits.push(hex_char(b % 16));
        i = i + 1;
    }
    assert(suffix@.take(i as int) =~= suffix@);
    join5(".", print, "-", digits.as_str(), ".tmp")
}

/// What is known of a file: what it is, how many names it has, and who may use
/// it. Some of it is not known everywhere.
#[derive(Clone, Copy, Debug, PartialEq, Eq, Structural)]
pub struct FileFacts {
    pub is_link: bool,
    pub is_file: bool,
    pub is_directory: bool,
    pub hard_links: Option<u64>,
    /// It belongs to the user who runs this.
    pub owned: Option<bool>,
    /// The permission bits.
    pub mode: Option<u32>,
}

/// Only the user may use it.
pub open spec fn is_private(facts: FileFacts) -> bool {
    facts.owned != Some(false) && (facts.mode matches Some(mode) ==> mode & 0o077 == 0)
}

pub open spec fn not_private() -> Seq<char> {
    "chat history must be private to the current user (directories 0700, files 0600)"@
}

pub fn validate_owner_and_mode(facts: FileFacts) -> (r: Result<(), String>)
    ensures
        match r {
            Ok(_) => is_private(facts),
            Err(message) => !is_private(facts) && message@ == not_private(),
        },
{
    let shared = match facts.mode {
        Some(mode) => mode & 0o077 != 0,
        None => false,
    };
    if facts.owned == Some(false) || shared {
        return Err(
            "chat history must be private to the current user (directories 0700, files 0600)".to_owned(),
        );
    }
    Ok(())
}

/// What is wrong with a file that a conversation is kept in.
pub open spec fn file_error(facts: FileFacts) -> Option<Seq<char>> {
    if facts.is_link || !facts.is_file {
        Some("chat history and lock files must be regular files, not links"@)
    } else if facts.hard_links matches Some(n) && n != 1 {
        Some("chat history and lock files must not have hard links"@)
    } else if !is_private(facts) {
        Some(not_private())
    } else {
        None
    }
}

pub fn validate_regular_private(facts: FileFacts) -> (r: Result<(), String>)
    ensures
        match r {
            Ok(_) => file_error(facts) is None,
            Err(message) => file_error(facts) == Some(message@),
        },
{
    if facts.is_link || !facts.is_file {
        return Err("chat history and lock files must be regular files, not links".to_owned());
    }
    if let Some(n) = facts.hard_links {
        if n != 1 {
            return Err("chat history and lock files must not have hard links".to_owned());
        }
    }
    validate_owner_and_mode(facts)
}

/// What is wrong with a directory that conversations are kept in.
pub open spec fn directory_error(facts: FileFacts) -> Option<Seq<char>> {
    if facts.is_link || !facts.is_directory {
        Some("chat history directory must be a regular directory, not a link"@)
    } else if !is_private(facts) {
        Some(not_private())
    } else {
        None
    }
}

pub fn validate_directory(facts: FileFacts) -> (r: Result<(), String>)
    ensures
        match r {
            Ok(_) => directory_error(facts) is None,
            Err(message) => directory_error(facts) == Some(message@),
        },
{
    if facts.is_link || !facts.is_directory {
        return Err("chat history directory must be a regular directory, not a link".to_owned());
    }
    validate_owner_and_mode(facts)
}

// ---------------------------------------------------------------------------
// What keeping a conversation is for
// ---------------------------------------------------------------------------

/// Somebody who may speak in a conversation.
pub open spec fn may_speak(role: Seq<char>) -> bool {
    ||| role == "system"@
    ||| role == "developer"@
    ||| role == "user"@
    ||| role == "assistant"@
    ||| role == "tool"@
}

/// Every conversation in which nobody speaks who may not, and which ends with an answer
/// in words, is stored as it is, under its own name and at its own time.
pub proof fn answered_conversations_are_stored(
    messages: Seq<MessageView>,
    print: Seq<char>,
    ttl: Option<u64>,
    now: u64,
)
    requires
        1 <= messages.len() <= 4096,
        forall|i: int| 0 <= i < messages.len() ==> may_speak((#[trigger] messages[i]).role),
        messages.last().role == "assistant"@,
        messages.last().content matches Some(ContentView::Text(text)) && !is_blank(text),
        ttl matches Some(ttl) ==> now + ttl <= u64::MAX,
    ensures
        ({
            let r = archived(messages, print, ttl, now);
            &&& r is Ok
            &&& r->Ok_0.messages == messages
            &&& r->Ok_0.session_fingerprint == print
            &&& r->Ok_0.updated == now
            &&& r->Ok_0.schema_version == 1
            &&& ttl is None ==> r->Ok_0.expires is None
            &&& ttl matches Some(ttl) ==> r->Ok_0.expires == Some((now + ttl) as u64)
        }),
{
}

/// An answer may also be a call of a tool, or an image.
pub proof fn calls_and_images_are_answers(messages: Seq<MessageView>)
    requires
        1 <= messages.len() <= 4096,
        forall|i: int| 0 <= i < messages.len() ==> may_speak((#[trigger] messages[i]).role),
        messages.last().role == "assistant"@,
    ensures
        (messages.last().tool_calls matches Some(calls) && calls.len() > 0) ==> messages_error(
            messages,
        ) is None,
        (messages.last().content matches Some(ContentView::Parts(parts)) && parts.len() > 0
            && parts[0].image_url is Some) ==> messages_error(messages) is None,
{
    if let Some(ContentView::Parts(parts)) = messages.last().content {
        if parts.len() > 0 && parts[0].image_url is Some {
            assert(part_says_something(parts[0]));
        }
    }
}

/// Nothing is stored that nobody answered, that is empty or too long, or in which
/// somebody speaks who may not.
pub proof fn unanswered_conversations_are_not_stored(
    messages: Seq<MessageView>,
    print: Seq<char>,
    ttl: Option<u64>,
    now: u64,
)
    ensures
        archived(messages, print, ttl, now) is Ok ==> {
            &&& 1 <= messages.len() <= 4096
            &&& forall|i: int| 0 <= i < messages.len() ==> may_speak((#[trigger] messages[i]).role)
            &&& messages.last().role == "assistant"@
            &&& messages.last().content is Some || messages.last().tool_calls is Some
            &&& (messages.last().content matches Some(ContentView::Text(text)) && is_blank(text))
                ==> messages.last().tool_calls is Some
        },
        (ttl matches Some(ttl) && now + ttl > u64::MAX) ==> archived(messages, print, ttl, now)
            is Err,
{
}

/// A session may be opened under a name of 1 to 256 bytes for a model of 1 to 1024,
/// without pinning, for at most thirty days, and reuse can only be required of what is
/// stored.
pub proof fn sessions_are_opened_by_name(
    session: Seq<char>,
    model: Seq<char>,
    policy: PersistencePolicy,
)
    ensures
        open_error(session, model, policy) is None ==> {
            &&& encode_utf8(session).len() <= 256
            &&& encode_utf8(model).len() <= 1024
            &&& !is_blank(session) && !is_blank(model)
            &&& !policy.pin
            &&& policy.ttl_seconds matches Some(ttl) ==> 1 <= ttl <= 2592000
            &&& policy.reuse is Required ==> policy.mode is Disk || policy.mode is Auto
        },
        is_label(session, 256) && is_label(model, 1024) && !policy.pin && policy.ttl_seconds is None
            && !(policy.reuse is Required) ==> open_error(session, model, policy) is None,
        is_label(session, 256) && is_label(model, 1024) && !policy.pin && (
        policy.ttl_seconds matches Some(ttl) && 1 <= ttl <= 2592000) && (policy.mode is Disk
            || policy.mode is Auto) ==> open_error(session, model, policy) is None,
        is_durable(policy) <==> policy.mode is Disk || policy.mode is Auto,
{
}

/// A name is any text that is not blank, is not too long and holds no control character.
pub proof fn names_are_plain_texts(name: Seq<char>, max: nat)
    ensures
        is_label(name, max) <==> !is_blank(name) && encode_utf8(name).len() <= max && forall|i: int|
            0 <= i < name.len() ==> !(0 <= #[trigger] name[i] as u32 <= 0x1f) && !(0x7f
                <= name[i] as u32 <= 0x9f),
{
    assert forall|c: char| is_control(c) <==> (0 <= c as u32 <= 0x1f) || (0x7f <= c as u32
        <= 0x9f) by {}
    if is_label(name, max) {
        assert forall|i: int| 0 <= i < name.len() implies !(0 <= #[trigger] name[i] as u32 <= 0x1f)
            && !(0x7f <= name[i] as u32 <= 0x9f) by {
            assert(!is_control(name[i]));
        }
    }
}

/// Opening resumes a sound archive of the session that has not expired, and starts anew
/// where there is none, where it has expired, or where reuse is disabled; what cannot be
/// read is never passed over in silence.
pub proof fn sessions_are_resumed_or_begun(
    policy: PersistencePolicy,
    archive: ArchiveView,
    reason: Seq<char>,
    print: Seq<char>,
    now: u64,
)
    ensures
        policy.reuse is Disabled ==> forall|found: Option<Result<ArchiveView, Seq<char>>>|
            (#[trigger] opened(policy, found, print, now)) matches Ok(h) && !h.resumed
                && h.messages.len() == 0,
        policy.reuse is Prefer ==> (opened(policy, None, print, now) matches Ok(h) && !h.resumed
            && h.messages.len() == 0),
        policy.reuse is Required ==> opened(policy, None, print, now) is Err,
        !(policy.reuse is Disabled) ==> opened(policy, Some(Err(reason)), print, now) is Err,
        !(policy.reuse is Disabled) && archive.session_fingerprint != print ==> opened(
            policy,
            Some(Ok(archive)),
            print,
            now,
        ) is Err,
        !(policy.reuse is Disabled) && archive.schema_version != 1 ==> opened(
            policy,
            Some(Ok(archive)),
            print,
            now,
        ) is Err,
        !(policy.reuse is Disabled) && archive.schema_version == 1 && archive.session_fingerprint
            == print && archive.expires is None && messages_error(archive.messages) is None ==> (
        opened(policy, Some(Ok(archive)), print, now) matches Ok(h) && h.resumed && h.messages
            == archive.messages),
        policy.reuse is Prefer && archive.schema_version == 1 && archive.session_fingerprint == print
            && messages_error(archive.messages) is None && (
        archive.expires matches Some(expiry) && archive.updated < expiry <= now) ==> (opened(
            policy,
            Some(Ok(archive)),
            print,
            now,
        ) matches Ok(h) && !h.resumed && h.messages.len() == 0 && h.notice is Some),
{
}

/// The files of a conversation are only used where nobody else can read or write them,
/// and where they are what they seem to be.
pub proof fn shared_files_are_not_used(facts: FileFacts)
    ensures
        file_error(facts) is None ==> facts.is_file && !facts.is_link && facts.owned != Some(false)
            && (facts.hard_links is None || facts.hard_links == Some(1u64)),
        facts.is_file && !facts.is_link && facts.hard_links is None && facts.owned is None
            && facts.mode is None ==> file_error(facts) is None,
        facts.is_file && !facts.is_link && facts.hard_links == Some(1u64) && facts.owned == Some(
            true,
        ) && facts.mode == Some(0o100600u32) ==> file_error(facts) is None,
        facts.mode == Some(0o100644u32) || facts.mode == Some(0o100660u32) ==> file_error(facts)
            is Some && directory_error(facts) is Some,
        directory_error(facts) is None ==> facts.is_directory && !facts.is_link && facts.owned
            != Some(false),
        facts.is_directory && !facts.is_link && facts.owned == Some(true) && facts.mode == Some(
            0o040700u32,
        ) ==> directory_error(facts) is None,
{
    assert(0o100600u32 & 0o077 == 0) by (bit_vector);
    assert(0o100644u32 & 0o077 != 0) by (bit_vector);
    assert(0o100660u32 & 0o077 != 0) by (bit_vector);
    assert(0o040700u32 & 0o077 == 0) by (bit_vector);
}

/// An archive is read where it is of this schema, of this conversation and not older
/// than it says, and its messages may stand in one.
pub proof fn archives_are_checked_in_full(archive: ArchiveView, print: Seq<char>)
    ensures
        archive_error(archive, print) is None <==> {
            &&& archive.schema_version == 1
            &&& archive.session_fingerprint == print
            &&& archive.expires is Some ==> archive.expires->0 > archive.updated
            &&& messages_error(archive.messages) is None
        },
{
}

/// A byte is written with two digits, and the archive of a conversation stands in the
/// directory under its fingerprint.
pub proof fn bytes_are_written_with_two_digits(
    bytes: Seq<u8>,
    b: u8,
    root: Seq<char>,
    model: Seq<char>,
    session: Seq<char>,
)
    ensures
        hex_of(Seq::empty()).len() == 0,
        hex_of(bytes.push(b)).len() == hex_of(bytes).len() + 2,
        hex_of(bytes.push(b)).take(hex_of(bytes).len() as int) == hex_of(bytes),
        b < 16 ==> hex_of(bytes.push(b))[hex_of(bytes).len() as int] == '0',
        b < 10 ==> hex_of(bytes.push(b)).last() as u32 == '0' as u32 + b,
        archive_path(root, model, session) == child(root, fingerprint(model, session) + ".json"@),
{
    assert(bytes.push(b).drop_last() =~= bytes);
    assert(hex_of(bytes.push(b)).take(hex_of(bytes).len() as int) =~= hex_of(bytes));
}

} // verus!
