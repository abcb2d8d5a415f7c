//! Buffer-fed recognition on iOS: the registry of open sessions, and what to
//! ask of the platform's speech recognizer.
//!
//! Session numbers are minted here and the host's sink is registered under
//! them. Reports for numbers that are no longer registered (finished,
//! cancelled, dropped) are ignored, so that a late report can never reach a
//! dead session. A finished session stays registered until the platform
//! reports its end; a cancelled or dropped one is taken off at once. The calls
//! to the platform and to the host stay outside.

use std::collections::HashMap;
use std::sync::Arc;
use vstd::prelude::*;
use vstd::string::*;

use crate::error::{Error, ErrorView};
use crate::recognizer::{
    share, RecognizerConfig, RecognizerEvent, RecognizerStatus, RecognizerStatusView, Sample,
};
use crate::text::{
    contains_char, language_prefix, lemma_prefix_len_unique, lower_text, same_text,
    signed_decimal, signed_decimal_of, to_ascii_lowercase, to_ascii_uppercase, upper_text,
};

verus! {

/// The platform's code for an authorization not decided yet.
pub const AUTH_UNDETERMINED: i32 = 0;

/// The platform's code for a granted authorization.
pub const AUTH_AUTHORIZED: i32 = 1;

/// What the platform's start error codes mean.
pub open spec fn start_error_text(code: int) -> Seq<char> {
    if code == 1 {
        "Locale not supported by the speech recognizer"@
    } else if code == 2 {
        "Speech recognizer unavailable (offline or restricted)"@
    } else if code == 3 {
        "Speech recognition not authorized"@
    } else if code == 4 {
        "Unsupported audio format"@
    } else if code == 5 {
        "Session id already running"@
    } else {
        "Speech recognizer failed to start (code "@ + signed_decimal(code) + ")"@
    }
}

/// Describes a start error code of the platform.
pub fn describe_start_error(code: i32) -> (text: String)
    ensures
        text@ == start_error_text(code as int),
{
    if code == 1 {
        String::from_str("Locale not supported by the speech recognizer")
    } else if code == 2 {
        String::from_str("Speech recognizer unavailable (offline or restricted)")
    } else if code == 3 {
        String::from_str("Speech recognition not authorized")
    } else if code == 4 {
        String::from_str("Unsupported audio format")
    } else if code == 5 {
        String::from_str("Session id already running")
    } else {
        let mut text = String::from_str("Speech recognizer failed to start (code ");
        text.append(signed_decimal_of(code).as_str());
        text.append(")");
        text
    }
}

/// The tag with region that the platform expects for a bare language code in
/// lower case, where one is known.
pub open spec fn region_tag(code: Seq<char>) -> Option<Seq<char>> {
    if code == "de"@ {
        Some("de-DE"@)
    } else if code == "en"@ {
        Some("en-US"@)
    } else if code == "fr"@ {
        Some("fr-FR"@)
    } else if code == "es"@ {
        Some("es-ES"@)
    } else if code == "it"@ {
        Some("it-IT"@)
    } else if code == "pt"@ {
        Some("pt-BR"@)
    } else if code == "nl"@ {
        Some("nl-NL"@)
    } else if code == "pl"@ {
        Some("pl-PL"@)
    } else if code == "ru"@ {
        Some("ru-RU"@)
    } else if code == "ja"@ {
        Some("ja-JP"@)
    } else if code == "ko"@ {
        Some("ko-KR"@)
    } else if code == "zh"@ {
        Some("zh-CN"@)
    } else if code == "ar"@ {
        Some("ar-SA"@)
    } else if code == "tr"@ {
        Some("tr-TR"@)
    } else {
        None
    }
}

/// Looks up the tag with region for a bare language code in lower case.
fn region_tag_of(code: &str) -> (tag: Option<&'static str>)
    ensures
        match tag {
            Some(t) => region_tag(code@) == Some(t@),
            None => region_tag(code@) is None,
        },
{
    if same_text(code, "de") {
        Some("de-DE")
    } else if same_text(code, "en") {
        Some("en-US")
    } else if same_text(code, "fr") {
        Some("fr-FR")
    } else if same_text(code, "es") {
        Some("es-ES")
    } else if same_text(code, "it") {
        Some("it-IT")
    } else if same_text(code, "pt") {
        Some("pt-BR")
    } else if same_text(code, "nl") {
        Some("nl-NL")
    } else if same_text(code, "pl") {
        Some("pl-PL")
    } else if same_text(code, "ru") {
        Some("ru-RU")
    } else if same_text(code, "ja") {
        Some("ja-JP")
    } else if same_text(code, "ko") {
        Some("ko-KR")
    } else if same_text(code, "zh") {
        Some("zh-CN")
    } else if same_text(code, "ar") {
        Some("ar-SA")
    } else if same_text(code, "tr") {
        Some("tr-TR")
    } else {
        None
    }
}

/// Whether a language tag has a region.
pub open spec fn has_region(code: Seq<char>) -> bool {
    code.contains('-') || code.contains('_')
}

/// The tag that a language code is widened to: itself where it has a region,
/// the known tag for a known bare code, and the code with itself as region
/// otherwise.
pub open spec fn widened(code: Seq<char>) -> Seq<char> {
    if has_region(code) {
        code
    } else {
        match region_tag(lower_text(code)) {
            Some(tag) => tag,
            None => code + "-"@ + upper_text(code),
        }
    }
}

/// Widens a bare language code to the region variant the platform's recognizer
/// expects ("de" becomes "de-DE"). Tags with a region pass through.
pub fn widen_language(code: &str) -> (tag: String)
    ensures
        tag@ == widened(code@),
{
    if contains_char(code, '-') || contains_char(code, '_') {
        return String::from_str(code);
    }
    match region_tag_of(to_ascii_lowercase(code).as_str()) {
        Some(tag) => String::from_str(tag),
        None => {
            let mut tag = String::from_str(code);
            tag.append("-");
            tag.append(to_ascii_uppercase(code).as_str());
            tag
        },
    }
}

/// A known tag is two letters, `-` and two letters, and its first two letters
/// are the code it is known for.
proof fn lemma_region_tag(code: Seq<char>)
    requires
        region_tag(code) is Some,
    ensures
        code.len() == 2,
        region_tag(code)->0.len() == 5,
        region_tag(code)->0[2] == '-',
        region_tag(code)->0[0] == code[0] && code[0] != '-',
        region_tag(code)->0[1] == code[1] && code[1] != '-',
        lower_text(code) == code,
{
    reveal_strlit("de");
    reveal_strlit("de-DE");
    reveal_strlit("en");
    reveal_strlit("en-US");
    reveal_strlit("fr");
    reveal_strlit("fr-FR");
    reveal_strlit("es");
    reveal_strlit("es-ES");
    reveal_strlit("it");
    reveal_strlit("it-IT");
    reveal_strlit("pt");
    reveal_strlit("pt-BR");
    reveal_strlit("nl");
    reveal_strlit("nl-NL");
    reveal_strlit("pl");
    reveal_strlit("pl-PL");
    reveal_strlit("ru");
    reveal_strlit("ru-RU");
    reveal_strlit("ja");
    reveal_strlit("ja-JP");
    reveal_strlit("ko");
    reveal_strlit("ko-KR");
    reveal_strlit("zh");
    reveal_strlit("zh-CN");
    reveal_strlit("ar");
    reveal_strlit("ar-SA");
    reveal_strlit("tr");
    reveal_strlit("tr-TR");
    assert(lower_text(code) =~= code);
}

/// Widening gives every tag a region and leaves a tag that has one alone; so
/// widening twice is widening once.
pub proof fn law_widening_is_idempotent(code: Seq<char>)
    ensures
        has_region(widened(code)),
        has_region(code) ==> widened(code) == code,
        widened(widened(code)) == widened(code),
{
    if !has_region(code) {
        if region_tag(lower_text(code)) is Some {
            lemma_region_tag(lower_text(code));
            assert(widened(code)[2] == '-');
        } else {
            reveal_strlit("-");
            assert(widened(code)[code.len() as int] == '-');
        }
    }
}

/// Widening never changes the language: what stands before the region is the
/// code that was given, up to the case of its letters.
pub proof fn law_widening_keeps_language(code: Seq<char>)
    requires
        !has_region(code),
    ensures
        lower_text(language_prefix(widened(code))) == lower_text(code),
{
    if region_tag(lower_text(code)) is Some {
        let tag = widened(code);
        lemma_region_tag(lower_text(code));
        lemma_prefix_len_unique(tag, 2);
        assert(language_prefix(tag) =~= lower_text(code));
    } else {
        reveal_strlit("-");
        let tag = widened(code);
        assert forall|i: int| 0 <= i < code.len() implies tag[i] != '-' by {
            assert(code.contains(code[i]));
        }
        lemma_prefix_len_unique(tag, code.len() as int);
        assert(language_prefix(tag) =~= code);
    }
}

/// The open sessions, by number, and the number that is given out next.
#[verifier::ext_equal]
pub struct RegistryModel<C> {
    /// The number of the next session.
    pub next_id: u64,
    /// The sink of each open session.
    pub sessions: Map<u64, Arc<C>>,
}

impl<C> RegistryModel<C> {
    /// Every open session has a number that was given out.
    pub open spec fn wf(self) -> bool {
        forall|id: u64| #[trigger] self.sessions.contains_key(id) ==> 0 < id < self.next_id
    }
}

/// The number after `id`, starting over after the last.
pub open spec fn following(id: u64) -> u64 {
    if id == u64::MAX {
        0
    } else {
        (id + 1) as u64
    }
}

/// What to ask of the platform to start a session.
#[derive(Debug, Clone, PartialEq, Eq)]
pub struct StreamStart {
    /// The number of the session.
    pub id: u64,
    /// The tag of the language, with region.
    pub locale: String,
    /// The sample rate of the audio.
    pub sample_rate: u32,
    /// Whether hypotheses are wanted.
    pub interim_results: bool,
    /// Whether recognition has to stay on the device.
    pub on_device: bool,
}

/// A sink that gets an event.
pub struct Delivery<C> {
    /// The sink.
    pub callback: Arc<C>,
    /// The event.
    pub event: RecognizerEvent,
}

/// The registry of open sessions: a [`RegistryModel`] in memory.
#[verifier::reject_recursive_types(C)]
pub struct SessionRegistry<C> {
    next_id: u64,
    sessions: HashMap<u64, Arc<C>>,
}

impl<C> View for SessionRegistry<C> {
    type V = RegistryModel<C>;

    closed spec fn view(&self) -> RegistryModel<C> {
        RegistryModel { next_id: self.next_id, sessions: self.sessions@ }
    }
}

/// Who gets `event`, reported for the session `id`: its sink while the session
/// is registered, nobody otherwise.
pub open spec fn delivery_of<C>(
    s: RegistryModel<C>,
    id: u64,
    event: RecognizerEvent,
) -> Option<Delivery<C>> {
    if s.sessions.contains_key(id) {
        Some(Delivery { callback: s.sessions[id], event })
    } else {
        None
    }
}

/// The registry without the session `id`.
pub open spec fn without<C>(s: RegistryModel<C>, id: u64) -> RegistryModel<C> {
    RegistryModel { sessions: s.sessions.remove(id), ..s }
}

/// The registry after a session was aborted: an open session is taken off, and
/// one that was closed before changes nothing.
pub open spec fn after_abort<C>(s: RegistryModel<C>, session: IosSessionModel) -> RegistryModel<C> {
    if session.closed {
        s
    } else {
        without(s, session.id)
    }
}

/// The registry after a request to open a session.
pub open spec fn after_open<C>(
    s: RegistryModel<C>,
    authorized: bool,
    language: Seq<char>,
    callback: Arc<C>,
) -> RegistryModel<C> {
    if !authorized {
        s
    } else if widened(language).contains('\0') {
        RegistryModel { next_id: following(s.next_id), ..s }
    } else {
        RegistryModel {
            next_id: following(s.next_id),
            sessions: s.sessions.insert(s.next_id, callback),
        }
    }
}

impl<C> SessionRegistry<C> {
    /// No session open yet.
    pub fn new() -> (registry: Self)
        ensures
            registry@ == (RegistryModel::<C> { next_id: 1, sessions: Map::empty() }),
            registry@.wf(),
    {
        SessionRegistry { next_id: 1, sessions: HashMap::new() }
    }

    /// The sink of the session `id`, if it is open.
    pub fn callback_for(&self, id: u64) -> (callback: Option<Arc<C>>)
        ensures
            callback == (if self@.sessions.contains_key(id) {
                Some(self@.sessions[id])
            } else {
                None
            }),
    {
        broadcast use vstd::std_specs::hash::group_hash_axioms;

        match self.sessions.get(&id) {
            Some(callback) => Some(share(callback)),
            None => None,
        }
    }

    /// Who gets `event`, reported for the session `id`: its sink while the
    /// session is open, nobody otherwise.
    pub fn deliver(&self, id: u64, event: RecognizerEvent) -> (delivery: Option<Delivery<C>>)
        ensures
            delivery == delivery_of(self@, id, event),
    {
        match self.callback_for(id) {
            Some(callback) => Some(Delivery { callback, event }),
            None => None,
        }
    }

    /// The platform reports the end of the session `id`. It is taken off the
    /// registry first, so that nothing after `Ended` can reach the host.
    pub fn ended(&mut self, id: u64) -> (delivery: Option<Delivery<C>>)
        ensures
            final(self)@ == without(old(self)@, id),
            old(self)@.wf() ==> final(self)@.wf(),
            delivery == delivery_of(old(self)@, id, RecognizerEvent::Ended),
    {
        broadcast use vstd::std_specs::hash::group_hash_axioms;

        let ghost before = self@;
        let removed = self.sessions.remove(&id);
        assert(self@ =~= without(before, id));
        match removed {
            Some(callback) => Some(Delivery { callback, event: RecognizerEvent::Ended }),
            None => None,
        }
    }

    /// Asks for a session. It is refused without authorization, and where the
    /// language cannot be handed to the platform. Else it is registered, and
    /// the platform is to be asked to start it.
    pub fn open(&mut self, authorized: bool, config: &RecognizerConfig, callback: Arc<C>) -> (start:
        Result<StreamStart, Error>)
        ensures
            final(self)@ == after_open(old(self)@, authorized, config.language@, callback),
            old(self)@.wf() && 0 < old(self)@.next_id < u64::MAX ==> final(self)@.wf(),
            match start {
                Ok(s) => {
                    &&& authorized
                    &&& !widened(config.language@).contains('\0')
                    &&& s.id == old(self)@.next_id
                    &&& s.locale@ == widened(config.language@)
                    &&& s.sample_rate == config.sample_rate
                    &&& s.interim_results == config.interim_results
                    &&& s.on_device == config.on_device
                },
                Err(e) => if !authorized {
                    e@ == ErrorView::PermissionDenied("Speech recognition not authorized"@)
                } else {
                    &&& widened(config.language@).contains('\0')
                    &&& e@ == ErrorView::ConfigError("Invalid language tag"@)
                },
            },
    {
        broadcast use vstd::std_specs::hash::group_hash_axioms;

        let ghost before = self@;
        if !authorized {
            return Err(
                Error::PermissionDenied(String::from_str("Speech recognition not authorized")),
            );
        }
        let id: u64 = self.next_id;
        self.next_id = if id == u64::MAX {
            0
        } else {
            id + 1
        };
        let locale = widen_language(config.language.as_str());
        if contains_char(locale.as_str(), '\0') {
            return Err(Error::ConfigError(String::from_str("Invalid language tag")));
        }
        self.sessions.insert(id, callback);
        assert(self@ =~= after_open(before, authorized, config.language@, callback));
        Ok(
            StreamStart {
                id,
                locale,
                sample_rate: config.sample_rate,
                interim_results: config.interim_results,
                on_device: config.on_device,
            },
        )
    }

    /// The platform answered the start of the session `id` with `code`. Zero
    /// is success; anything else takes the session off the registry.
    pub fn started(&mut self, id: u64, code: i32) -> (session: Result<IosSession, Error>)
        ensures
            final(self)@ == (if code == 0 {
                old(self)@
            } else {
                without(old(self)@, id)
            }),
            old(self)@.wf() ==> final(self)@.wf(),
            match session {
                Ok(s) => code == 0 && s@ == (IosSessionModel { id, closed: false }),
                Err(e) => code != 0 && e@ == ErrorView::NotAvailable(start_error_text(code as int)),
            },
    {
        broadcast use vstd::std_specs::hash::group_hash_axioms;

        let ghost before = self@;
        if code != 0 {
            self.sessions.remove(&id);
            assert(self@ =~= without(before, id));
            return Err(Error::NotAvailable(describe_start_error(code)));
        }
        Ok(IosSession { id, closed: false })
    }

    /// Aborts a session: the host cancels it or drops it. An open session is
    /// taken off the registry at once, so that no report that is still under
    /// way can reach the host. Returns what to ask of the platform, and who
    /// gets the `Ended` that closes the session.
    pub fn abort(&mut self, session: &mut IosSession) -> (asked: (
        Option<StreamCommand>,
        Option<Delivery<C>>,
    ))
        ensures
            asked.0 == close_command(old(session)@, false),
            asked.1 == (if old(session)@.closed {
                None
            } else {
                delivery_of(old(self)@, old(session)@.id, RecognizerEvent::Ended)
            }),
            final(session)@ == (IosSessionModel { closed: true, ..old(session)@ }),
            final(self)@ == after_abort(old(self)@, old(session)@),
            old(self)@.wf() ==> final(self)@.wf(),
    {
        match session.close(false) {
            Some(command) => {
                let delivery = self.ended(session.id);
                (Some(command), delivery)
            },
            None => (None, None),
        }
    }
}

/// Once a session is off the registry, no report for its number reaches the
/// host any more, and other sessions are not affected.
pub proof fn law_late_report_reaches_nobody<C>(
    s: RegistryModel<C>,
    id: u64,
    other: u64,
    event: RecognizerEvent,
)
    requires
        other != id,
    ensures
        delivery_of(without(s, id), id, event) is None,
        delivery_of(without(s, id), other, event) == delivery_of(s, other, event),
{
}

/// A session that is opened gets a number that no open session has, and takes
/// nobody's place.
pub proof fn law_new_session_takes_nobodys_place<C>(
    s: RegistryModel<C>,
    language: Seq<char>,
    callback: Arc<C>,
    other: u64,
)
    requires
        s.wf(),
        !widened(language).contains('\0'),
        s.sessions.contains_key(other),
    ensures
        other != s.next_id,
        after_open(s, true, language, callback).sessions.contains_key(other),
        after_open(s, true, language, callback).sessions[other] == s.sessions[other],
        after_open(s, true, language, callback).sessions[s.next_id] == callback,
{
}

/// A session that the platform would not start leaves no trace: the open
/// sessions are those from before.
pub proof fn law_failed_start_leaves_no_trace<C>(
    s: RegistryModel<C>,
    language: Seq<char>,
    callback: Arc<C>,
)
    requires
        s.wf(),
    ensures
        without(after_open(s, true, language, callback), s.next_id).sessions == s.sessions,
{
    assert(!s.sessions.contains_key(s.next_id));
    assert(without(after_open(s, true, language, callback), s.next_id).sessions =~= s.sessions);
}

/// What can happen to the registry.
pub enum RegistryStep<C> {
    /// A session is asked for in this language, with this sink.
    Open(bool, Seq<char>, Arc<C>),
    /// A session is taken off: it ended, or the platform would not start it.
    Remove(u64),
    /// A session is aborted.
    Abort(IosSessionModel),
}

/// The registry after a sequence of steps.
pub open spec fn registry_after<C>(s: RegistryModel<C>, steps: Seq<RegistryStep<C>>) -> RegistryModel<
    C,
>
    decreases steps.len(),
{
    if steps.len() == 0 {
        s
    } else {
        let before = registry_after(s, steps.drop_last());
        match steps.last() {
            RegistryStep::Open(authorized, language, callback) => after_open(
                before,
                authorized,
                language,
                callback,
            ),
            RegistryStep::Remove(id) => without(before, id),
            RegistryStep::Abort(session) => after_abort(before, session),
        }
    }
}

/// A dead session stays dead: a number that was given out and is no longer
/// registered is never registered again, so that no report for it can reach a
/// host, whatever sessions are opened and closed later.
pub proof fn law_dead_session_stays_dead<C>(
    s: RegistryModel<C>,
    steps: Seq<RegistryStep<C>>,
    id: u64,
)
    requires
        s.wf(),
        0 < id < s.next_id,
        !s.sessions.contains_key(id),
        s.next_id + steps.len() <= u64::MAX,
    ensures
        !registry_after(s, steps).sessions.contains_key(id),
        registry_after(s, steps).wf(),
        s.next_id <= registry_after(s, steps).next_id <= s.next_id + steps.len(),
    decreases steps.len(),
{
    if steps.len() > 0 {
        law_dead_session_stays_dead(s, steps.drop_last(), id);
    }
}

/// A session that the host cancelled or dropped is dead from then on: its sink
/// got `Ended` if it was still registered, and neither a report nor an end
/// that the platform still sends for it reaches anyone, whatever sessions are
/// opened and closed later. Other sessions are not affected by the abort.
pub proof fn law_aborted_session_is_dead<C>(
    s: RegistryModel<C>,
    session: IosSessionModel,
    steps: Seq<RegistryStep<C>>,
    event: RecognizerEvent,
    other: u64,
)
    requires
        s.wf(),
        !session.closed,
        0 < session.id < s.next_id,
        s.next_id + steps.len() <= u64::MAX,
        other != session.id,
    ensures
        delivery_of(registry_after(after_abort(s, session), steps), session.id, event) is None,
        delivery_of(
            registry_after(after_abort(s, session), steps),
            session.id,
            RecognizerEvent::Ended,
        ) is None,
        delivery_of(after_abort(s, session), other, event) == delivery_of(s, other, event),
        close_command(session, false) == Some(StreamCommand::Cancel(session.id)),
{
    law_dead_session_stays_dead(after_abort(s, session), steps, session.id);
}

/// What to ask of the platform to close a session.
#[derive(Debug, Clone, Copy, PartialEq, Eq, Structural)]
pub enum StreamCommand {
    /// Finalize the session of this number.
    Finish(u64),
    /// Abort the session of this number.
    Cancel(u64),
}

/// The state of a session.
pub struct IosSessionModel {
    /// Its number.
    pub id: u64,
    /// Whether it was closed.
    pub closed: bool,
}

/// An open session of the platform's recognizer.
#[derive(Debug)]
pub struct IosSession {
    id: u64,
    closed: bool,
}

impl View for IosSession {
    type V = IosSessionModel;

    closed spec fn view(&self) -> IosSessionModel {
        IosSessionModel { id: self.id, closed: self.closed }
    }
}

/// What closing a session asks of the platform: nothing the second time.
pub open spec fn close_command(s: IosSessionModel, finish: bool) -> Option<StreamCommand> {
    if s.closed {
        None
    } else if finish {
        Some(StreamCommand::Finish(s.id))
    } else {
        Some(StreamCommand::Cancel(s.id))
    }
}

impl IosSession {
    /// Closes the session, once. Returns what to ask of the platform.
    fn close(&mut self, finish: bool) -> (command: Option<StreamCommand>)
        ensures
            command == close_command(old(self)@, finish),
            final(self)@ == (IosSessionModel { closed: true, ..old(self)@ }),
    {
        if self.closed {
            return None;
        }
        self.closed = true;
        if finish {
            Some(StreamCommand::Finish(self.id))
        } else {
            Some(StreamCommand::Cancel(self.id))
        }
    }

    /// The number under which `samples` are to be handed to the platform; none
    /// where the session is closed or there are no samples.
    pub fn feed(&self, samples: &[Sample]) -> (id: Option<u64>)
        ensures
            id == (if self@.closed || samples@.len() == 0 {
                None
            } else {
                Some(self@.id)
            }),
    {
        if self.closed || samples.len() == 0 {
            None
        } else {
            Some(self.id)
        }
    }

    /// Finalizes the session. Returns what to ask of the platform.
    pub fn finish(&mut self) -> (command: Option<StreamCommand>)
        ensures
            command == close_command(old(self)@, true),
            final(self)@ == (IosSessionModel { closed: true, ..old(self)@ }),
    {
        self.close(true)
    }
}

/// A session is closed once: after it was finished or aborted, neither closing
/// it again nor dropping it asks anything of the platform, and the drop of a
/// finished session leaves it registered for the transcript it waits for.
pub proof fn law_session_is_closed_once<C>(s: RegistryModel<C>, session: IosSessionModel, again: bool)
    ensures
        close_command(IosSessionModel { closed: true, ..session }, again) is None,
        after_abort(s, IosSessionModel { closed: true, ..session }) == s,
{
}

/// The status of the recognizer under the platform's authorization code: it is
/// available unless the user denied it, and it needs no model.
pub fn status(authorization: i32) -> (status: RecognizerStatus)
    ensures
        ({
            let denied = authorization != AUTH_AUTHORIZED && authorization != AUTH_UNDETERMINED;
            status@ == (RecognizerStatusView {
                available: !denied,
                reason: if denied {
                    Some("Speech recognition permission denied"@)
                } else {
                    None
                },
                model_installed: true,
                needs_model_download: false,
            })
        }),
{
    let denied = authorization != AUTH_AUTHORIZED && authorization != AUTH_UNDETERMINED;
    RecognizerStatus {
        available: !denied,
        reason: if denied {
            Some(String::from_str("Speech recognition permission denied"))
        } else {
            None
        },
        model_installed: true,
        needs_model_download: false,
    }
}

/// Whether the platform's answer to the authorization prompt allows speech
/// recognition.
pub fn is_authorized(answer: i32) -> (authorized: bool)
    ensures
        authorized == (answer == AUTH_AUTHORIZED),
{
    answer == AUTH_AUTHORIZED
}

/// What the platform's start errors mean; one that is not known is told by its
/// number.
pub proof fn law_start_errors_are_told(code: int)
    ensures
        start_error_text(1) == "Locale not supported by the speech recognizer"@,
        start_error_text(2) == "Speech recognizer unavailable (offline or restricted)"@,
        start_error_text(3) == "Speech recognition not authorized"@,
        start_error_text(4) == "Unsupported audio format"@,
        start_error_text(5) == "Session id already running"@,
        code < 1 || code > 5 ==> start_error_text(code)
            == "Speech recognizer failed to start (code "@ + signed_decimal(code) + ")"@,
{
}

/// Whether a code, in any case, is one for which a region is known.
pub open spec fn has_known_region(code: Seq<char>) -> bool {
    exists|i: int|
        0 <= i < known_languages().len() && lower_text(code) == #[trigger] known_languages()[i]
}

/// The languages for which a region is known.
pub open spec fn known_languages() -> Seq<Seq<char>> {
    seq![
        "de"@,
        "en"@,
        "fr"@,
        "es"@,
        "it"@,
        "pt"@,
        "nl"@,
        "pl"@,
        "ru"@,
        "ja"@,
        "ko"@,
        "zh"@,
        "ar"@,
        "tr"@,
    ]
}

/// The tags that the known languages are widened to, in the same order.
pub open spec fn known_tags() -> Seq<Seq<char>> {
    seq![
        "de-DE"@,
        "en-US"@,
        "fr-FR"@,
        "es-ES"@,
        "it-IT"@,
        "pt-BR"@,
        "nl-NL"@,
        "pl-PL"@,
        "ru-RU"@,
        "ja-JP"@,
        "ko-KR"@,
        "zh-CN"@,
        "ar-SA"@,
        "tr-TR"@,
    ]
}

/// What a bare code is widened to: a known language, in any case, to its tag;
/// any other code to itself and, after a `-`, itself in capitals. A tag with a
/// `-` or a `_` is left as it is.
pub proof fn law_what_a_code_is_widened_to(code: Seq<char>, i: int)
    requires
        0 <= i < known_languages().len(),
    ensures
        code.contains('-') || code.contains('_') ==> widened(code) == code,
        lower_text(code) == known_languages()[i] ==> widened(code) == known_tags()[i],
        !code.contains('-') && !code.contains('_') && !has_known_region(code) ==> widened(code)
            == code + seq!['-'] + upper_text(code),
{
    reveal_strlit("-");
    reveal_strlit("de");
    reveal_strlit("en");
    reveal_strlit("fr");
    reveal_strlit("es");
    reveal_strlit("it");
    reveal_strlit("pt");
    reveal_strlit("nl");
    reveal_strlit("pl");
    reveal_strlit("ru");
    reveal_strlit("ja");
    reveal_strlit("ko");
    reveal_strlit("zh");
    reveal_strlit("ar");
    reveal_strlit("tr");
    let lower = lower_text(code);
    if lower == known_languages()[i] {
        assert(lower.len() == 2);
        assert forall|k: int| 0 <= k < code.len() implies code[k] != '-' && code[k] != '_' by {
            assert(lower[k] == known_languages()[i][k]);
        }
        assert(!has_region(code));
        assert(lower[0] == known_languages()[i][0] && lower[1] == known_languages()[i][1]);
    }
    if !has_known_region(code) {
        assert forall|k: int| 0 <= k < 14 implies lower != #[trigger] known_languages()[k] by {}
        assert(lower != known_languages()[0] && lower != known_languages()[1] && lower
            != known_languages()[2] && lower != known_languages()[3] && lower
            != known_languages()[4] && lower != known_languages()[5] && lower
            != known_languages()[6] && lower != known_languages()[7] && lower
            != known_languages()[8] && lower != known_languages()[9] && lower
            != known_languages()[10] && lower != known_languages()[11] && lower
            != known_languages()[12] && lower != known_languages()[13]);
        assert("-"@ =~= seq!['-']);
    }
}

/// A session that is asked for is registered under the next number, with its
/// sink, where it is authorized and its tag can be handed to the platform. A
/// tag that cannot uses a number up and registers nothing; without
/// authorization nothing changes.
pub proof fn law_session_is_registered<C>(
    s: RegistryModel<C>,
    language: Seq<char>,
    callback: Arc<C>,
    event: RecognizerEvent,
    other: u64,
)
    requires
        s.next_id < u64::MAX,
        other != s.next_id,
    ensures
        after_open(s, false, language, callback) == s,
        after_open(s, true, language, callback).next_id == s.next_id + 1,
        widened(language).contains('\0') ==> after_open(s, true, language, callback).sessions
            == s.sessions,
        !widened(language).contains('\0') ==> delivery_of(
            after_open(s, true, language, callback),
            s.next_id,
            event,
        ) == Some(Delivery { callback, event }),
        delivery_of(after_open(s, true, language, callback), other, event) == delivery_of(
            s,
            other,
            event,
        ),
{
}

/// An event reaches the sink of its session while that is registered, and
/// nobody otherwise. A session that is taken off is the only one that is.
pub proof fn law_event_reaches_its_sink<C>(
    s: RegistryModel<C>,
    id: u64,
    other: u64,
    event: RecognizerEvent,
)
    requires
        other != id,
    ensures
        s.sessions.contains_key(id) ==> delivery_of(s, id, event) == Some(
            Delivery { callback: s.sessions[id], event },
        ),
        !s.sessions.contains_key(id) ==> delivery_of(s, id, event) is None,
        !without(s, id).sessions.contains_key(id),
        without(s, id).sessions.contains_key(other) == s.sessions.contains_key(other),
        s.sessions.contains_key(other) ==> without(s, id).sessions[other] == s.sessions[other],
        without(s, id).next_id == s.next_id,
{
}

/// An open session is finished or cancelled, as the host wishes, under its own
/// number; a closed one is neither.
pub proof fn law_close_asks_for_what_the_host_wishes(session: IosSessionModel)
    ensures
        !session.closed ==> close_command(session, true) == Some(StreamCommand::Finish(session.id))
            && close_command(session, false) == Some(StreamCommand::Cancel(session.id)),
        session.closed ==> close_command(session, true) is None && close_command(session, false)
            is None,
{
}

/// The platform's authorization codes.
pub proof fn law_authorization_codes()
    ensures
        AUTH_UNDETERMINED == 0,
        AUTH_AUTHORIZED == 1,
{
}

} // verus!
