//! The patch that gives the backend its control interface.
//!
//! Two pieces of text go into the module that makes the application: the import of the interface
//! above the function, and its registration below the last registration of another. The module of
//! the interface itself is a file of its own. It is written first: where the second write fails an
//! unused module is left, and never an import of a module that is not there. A mark in the text
//! tells that it was patched before.
use vstd::prelude::*;

use crate::text;

verus! {

/// The mark of a text that was patched.
pub const MARKER: &'static str = "# === alas-launcher:control-api ===";

/// The import of the control interface.
pub const INJECT_IMPORT: &'static str = "# === alas-launcher:control-api ===\nfrom module.webui.control_api import router as alas_control_router\n";

/// The registration of the control interface.
pub const INJECT_INCLUDE: &'static str = "    app.include_router(alas_control_router)\n";

/// The function that makes the application.
pub const ANCHOR_DEF: &'static str = "def create_api_app() -> FastAPI:";

/// The registration that comes last.
pub const ANCHOR_INCLUDE: &'static str = "    app.include_router(events.router)";

/// What became of the patch.
#[derive(Clone, Copy, Debug, PartialEq, Eq, Structural)]
pub enum PatchOutcome {
    Applied,
    AlreadyApplied,
    AnchorMismatch,
}

/// The text was patched before.
pub open spec fn patched(content: Seq<char>) -> bool {
    text::has_text(content, MARKER@)
}

/// The text has both places where something is put in.
pub open spec fn has_anchors(content: Seq<char>) -> bool {
    text::has_text(content, ANCHOR_DEF@) && text::has_text(content, ANCHOR_INCLUDE@)
}

/// The text with the import above the function.
pub open spec fn with_import(content: Seq<char>) -> Seq<char> {
    text::replaced_first(content, ANCHOR_DEF@, INJECT_IMPORT@ + "\n"@ + ANCHOR_DEF@)
}

/// The text with the import, and with the registration below the last of the others.
pub open spec fn injected(content: Seq<char>) -> Seq<char> {
    text::replaced_last(
        with_import(content),
        ANCHOR_INCLUDE@,
        ANCHOR_INCLUDE@ + "\n"@ + INJECT_INCLUDE@,
    )
}

/// Whether the text was patched before.
pub fn is_already_patched(init_content: &str) -> (r: bool)
    ensures
        r == patched(init_content@),
{
    text::contains(init_content, MARKER)
}

/// Whether the text has both places where something is put in.
pub fn verify_anchor(init_content: &str) -> (r: bool)
    ensures
        r == has_anchors(init_content@),
{
    text::contains(init_content, ANCHOR_DEF) && text::contains(init_content, ANCHOR_INCLUDE)
}

/// Why a text was not patched.
#[derive(Clone, Copy, Debug, PartialEq, Eq, Structural)]
pub enum InjectError {
    AlreadyPatched,
    AnchorMismatch,
}

/// Patches a text.
pub fn inject_api_init(content: &str) -> (r: Result<String, InjectError>)
    ensures
        match r {
            Ok(t) => !patched(content@) && has_anchors(content@) && t@ == injected(content@),
            Err(InjectError::AlreadyPatched) => patched(content@),
            Err(InjectError::AnchorMismatch) => !patched(content@) && !has_anchors(content@),
        },
{
    if is_already_patched(content) {
        return Err(InjectError::AlreadyPatched);
    }
    if !verify_anchor(content) {
        return Err(InjectError::AnchorMismatch);
    }
    let mut import = String::from_str(INJECT_IMPORT);
    import.append("\n");
    import.append(ANCHOR_DEF);
    let imported = text::replace_first(content, ANCHOR_DEF, import.as_str());
    let mut registration = String::from_str(ANCHOR_INCLUDE);
    registration.append("\n");
    registration.append(INJECT_INCLUDE);
    Ok(text::replace_last(imported.as_str(), ANCHOR_INCLUDE, registration.as_str()))
}

/// What was done to apply the patch.
#[derive(Debug)]
pub enum PatchEvent {
    /// The text that was read, if it could be.
    Read { api_init: Option<String> },
    /// Whether the module of the interface was written.
    ModuleWritten { ok: bool },
    /// Whether the patched text was written.
    InitWritten { ok: bool },
}

/// What is to be done next to apply the patch.
#[derive(Debug)]
pub enum PatchAction {
    /// Write the module of the interface.
    WriteModule,
    /// Write this text in place of the one that was read.
    WriteInit { content: String },
    Done(PatchOutcome),
    Fail,
}

/// The patch of the backend: whether it has failed since the launcher was started, and the text that
/// is to be written.
#[derive(Debug)]
pub struct Patcher {
    pub failed: bool,
    pub pending: String,
}

/// What was done to apply the patch.
pub enum PatchEventView {
    Read { api_init: Option<Seq<char>> },
    ModuleWritten { ok: bool },
    InitWritten { ok: bool },
}

impl View for PatchEvent {
    type V = PatchEventView;

    open spec fn view(&self) -> PatchEventView {
        match self {
            PatchEvent::Read { api_init } => PatchEventView::Read {
                api_init: crate::json::text_view(*api_init),
            },
            PatchEvent::ModuleWritten { ok } => PatchEventView::ModuleWritten { ok: *ok },
            PatchEvent::InitWritten { ok } => PatchEventView::InitWritten { ok: *ok },
        }
    }
}

/// What is to be done next to apply the patch.
pub enum PatchActionView {
    WriteModule,
    WriteInit { content: Seq<char> },
    Done(PatchOutcome),
    Fail,
}

impl View for PatchAction {
    type V = PatchActionView;

    open spec fn view(&self) -> PatchActionView {
        match self {
            PatchAction::WriteModule => PatchActionView::WriteModule,
            PatchAction::WriteInit { content } => PatchActionView::WriteInit { content: content@ },
            PatchAction::Done(outcome) => PatchActionView::Done(*outcome),
            PatchAction::Fail => PatchActionView::Fail,
        }
    }
}

/// The state of the patch.
pub struct PatcherView {
    pub failed: bool,
    pub pending: Seq<char>,
}

impl View for Patcher {
    type V = PatcherView;

    open spec fn view(&self) -> PatcherView {
        PatcherView { failed: self.failed, pending: self.pending@ }
    }
}

/// The state of the patch after something was done, and what is to be done next.
pub open spec fn patch_step(p: PatcherView, event: PatchEventView) -> (
    PatcherView,
    PatchActionView,
) {
    let broken = PatcherView { failed: true, ..p };
    match event {
        PatchEventView::Read { api_init: Some(c) } => if patched(c) {
            (p, PatchActionView::Done(PatchOutcome::AlreadyApplied))
        } else if has_anchors(c) {
            (PatcherView { pending: injected(c), ..p }, PatchActionView::WriteModule)
        } else {
            (broken, PatchActionView::Done(PatchOutcome::AnchorMismatch))
        },
        PatchEventView::Read { api_init: None } => (broken, PatchActionView::Fail),
        PatchEventView::ModuleWritten { ok } => if ok {
            (p, PatchActionView::WriteInit { content: p.pending })
        } else {
            (broken, PatchActionView::Fail)
        },
        PatchEventView::InitWritten { ok } => if ok {
            (p, PatchActionView::Done(PatchOutcome::Applied))
        } else {
            (broken, PatchActionView::Fail)
        },
    }
}

impl Patcher {
    /// Nothing was done yet.
    pub fn new() -> (r: Patcher)
        ensures
            r@ == (PatcherView { failed: false, pending: Seq::empty() }),
    {
        let pending = String::new();
        assert(pending@ =~= Seq::<char>::empty());
        Patcher { failed: false, pending }
    }

    /// Whether the patch has failed, so that the control interface cannot be counted on.
    pub fn patch_failed(&self) -> (r: bool)
        ensures
            r == self.failed,
    {
        self.failed
    }

    /// Decides how the patch is applied. The module is written before the text that imports it; a
    /// step that fails ends it, and is remembered.
    pub fn apply_patch(&mut self, event: PatchEvent) -> (r: PatchAction)
        ensures
            (final(self)@, r@) == patch_step(old(self)@, event@),
    {
        match event {
            PatchEvent::Read { api_init } => match api_init {
                Some(c) => match inject_api_init(c.as_str()) {
                    Ok(t) => {
                        self.pending = t;
                        PatchAction::WriteModule
                    },
                    Err(InjectError::AlreadyPatched) => PatchAction::Done(
                        PatchOutcome::AlreadyApplied,
                    ),
                    Err(InjectError::AnchorMismatch) => {
                        self.failed = true;
                        PatchAction::Done(PatchOutcome::AnchorMismatch)
                    },
                },
                None => {
                    self.failed = true;
                    PatchAction::Fail
                },
            },
            PatchEvent::ModuleWritten { ok } => {
                if ok {
                    PatchAction::WriteInit { content: self.pending.clone() }
                } else {
                    self.failed = true;
                    PatchAction::Fail
                }
            },
            PatchEvent::InitWritten { ok } => {
                if ok {
                    PatchAction::Done(PatchOutcome::Applied)
                } else {
                    self.failed = true;
                    PatchAction::Fail
                }
            },
        }
    }
}

/// The import and the line end behind it, as they are put in.
pub open spec fn import_piece() -> Seq<char> {
    INJECT_IMPORT@ + "\n"@
}

/// The registration and the line end before it, as they are put in.
pub open spec fn registration_piece() -> Seq<char> {
    "\n"@ + INJECT_INCLUDE@
}

/// The two places do not overlap.
proof fn anchors_are_apart(content: Seq<char>, d: int, q: int)
    requires
        text::occurs_at(content, ANCHOR_DEF@, d),
        text::occurs_at(content, ANCHOR_INCLUDE@, q),
    ensures
        q + ANCHOR_INCLUDE@.len() <= d || d <= q,
{
    reveal_strlit("def create_api_app() -> FastAPI:");
    reveal_strlit("    app.include_router(events.router)");
    let n = ANCHOR_INCLUDE@.len() as int;
    if q < d && d < q + n {
        let inc = content.subrange(q, q + n);
        let def = content.subrange(d, d + ANCHOR_DEF@.len());
        assert(def[0] == content[d] && def[1] == content[d + 1] && def[2] == content[d + 2]);
        assert(content[d] == 'd' && content[d + 1] == 'e' && content[d + 2] == 'f');
        assert(inc[d - q] == content[d]);
        assert(d - q == 13);
        assert(inc[15] == content[d + 2]);
    }
}

/// Where the registration stands in the text with the import: nowhere but where it stood before.
proof fn registrations_with_import(content: Seq<char>, d: int, j: int)
    requires
        text::occurs_at(content, ANCHOR_DEF@, d),
    ensures
        ({
            let n = ANCHOR_INCLUDE@.len();
            let k = import_piece().len();
            let imported = content.take(d) + import_piece() + content.skip(d);
            text::occurs_at(imported, ANCHOR_INCLUDE@, j) <==> {
                ||| j + n <= d && text::occurs_at(content, ANCHOR_INCLUDE@, j)
                ||| j >= d + k && text::occurs_at(content, ANCHOR_INCLUDE@, j - k)
            }
        }),
{
    let inc = ANCHOR_INCLUDE@;
    let n = inc.len() as int;
    let piece = import_piece();
    let k = piece.len() as int;
    let imported = content.take(d) + piece + content.skip(d);
    if j >= 0 && j + n <= d {
        assert(imported.subrange(j, j + n) =~= content.subrange(j, j + n));
    } else if j >= d + k {
        if j + n <= imported.len() {
            assert(imported.subrange(j, j + n) =~= content.subrange(j - k, j - k + n));
        }
    } else if text::occurs_at(imported, inc, j) {
        let window = imported.subrange(j, j + n);
        reveal_strlit("    app.include_router(events.router)");
        reveal_strlit(
            "# === alas-launcher:control-api ===\nfrom module.webui.control_api import router as alas_control_router\n",
        );
        reveal_strlit("\n");
        if j < d {
            assert(imported[d] == piece[0]);
            assert(window[d - j] == imported[d]);
            assert(inc[d - j] == '#');
            assert(false);
        } else {
            assert(window[0] == imported[j]);
            assert(window[1] == imported[j + 1]);
            assert(imported[j] == piece[j - d]);
            assert(piece[j - d] == ' ');
            assert(j - d + 1 < k);
            assert(imported[j + 1] == piece[j - d + 1]);
            assert(piece[j - d + 1] == ' ');
            import_has_no_two_spaces(j - d);
            assert(false);
        }
    }
}

/// No two spaces stand beside each other in the import.
proof fn import_has_no_two_spaces(i: int)
    requires
        0 <= i < import_piece().len() - 1,
    ensures
        !(import_piece()[i] == ' ' && import_piece()[i + 1] == ' '),
        import_piece().last() != ' ',
{
    reveal_strlit(
        "# === alas-launcher:control-api ===\nfrom module.webui.control_api import router as alas_control_router\n",
    );
    reveal_strlit("\n");
}

/// The patched text is the old one with two pieces put in: the import directly above the first
/// place, and the registration directly below the last of the second. Nothing else is changed.
pub proof fn injection_only_adds(content: Seq<char>)
    requires
        has_anchors(content),
    ensures
        ({
            let d = text::position(content, ANCHOR_DEF@)->0;
            let e = text::last_position(content, ANCHOR_INCLUDE@)->0 + ANCHOR_INCLUDE@.len();
            &&& 0 <= d <= content.len()
            &&& 0 <= e <= content.len()
            &&& e <= d ==> injected(content) == content.take(e) + registration_piece()
                + content.subrange(e, d) + import_piece() + content.skip(d)
            &&& d < e ==> injected(content) == content.take(d) + import_piece() + content.subrange(
                d,
                e,
            ) + registration_piece() + content.skip(e)
        }),
{
    let def = ANCHOR_DEF@;
    let inc = ANCHOR_INCLUDE@;
    let n = inc.len() as int;
    text::position_from_is_least(content, def, 0);
    let d = text::position(content, def)->0;
    let some = choose|i: int| text::occurs_at(content, inc, i);
    assert(text::occurs_at(content, inc, some));
    text::last_position_is_greatest(content, inc, content.len() - n);
    let q = text::last_position(content, inc)->0;
    anchors_are_apart(content, d, q);
    let piece = import_piece();
    let k = piece.len() as int;
    let imported = content.take(d) + piece + content.skip(d);
    assert(content.subrange(d, d + def.len()) =~= def);
    assert(with_import(content) =~= imported) by {
        assert(content.skip(d) =~= def + content.skip(d + def.len()));
    }
    let target = if q < d {
        q
    } else {
        q + k
    };
    registrations_with_import(content, d, target);
    assert(text::occurs_at(imported, inc, target));
    text::last_position_is_greatest(imported, inc, imported.len() - n);
    let found = text::last_position(imported, inc)->0;
    registrations_with_import(content, d, found);
    if found > target {
        if found >= d + k {
            assert(text::occurs_at(content, inc, found - k));
        } else {
            assert(text::occurs_at(content, inc, found));
        }
        assert(false);
    }
    assert(found == target);
    let e = q + n;
    reveal_strlit("    app.include_router(events.router)");
    assert(q < d ==> e <= d);
    assert(q >= d ==> d < e);
    assert(imported.subrange(target, target + n) =~= inc);
    if q < d {
        assert(content.subrange(q, e) =~= inc);
        assert(injected(content) =~= content.take(e) + registration_piece() + content.subrange(e, d)
            + import_piece() + content.skip(d)) by {
            assert(content.take(e) =~= content.take(q) + inc);
            assert(imported.take(q) =~= content.take(q));
            assert(imported.skip(e) =~= content.subrange(e, d) + piece + content.skip(d));
        }
    } else {
        assert(content.subrange(q, e) =~= inc);
        assert(injected(content) =~= content.take(d) + import_piece() + content.subrange(d, e)
            + registration_piece() + content.skip(e)) by {
            assert(content.subrange(d, e) =~= content.subrange(d, q) + inc);
            assert(imported.take(q + k) =~= content.take(d) + piece + content.subrange(d, q));
            assert(imported.skip(e + k) =~= content.skip(e));
        }
    }
}

/// A text that was patched is known to be: applying the patch again changes nothing.
pub proof fn patching_is_idempotent(content: Seq<char>)
    requires
        has_anchors(content),
    ensures
        patched(injected(content)),
{
    injection_only_adds(content);
    let d = text::position(content, ANCHOR_DEF@)->0;
    let e = text::last_position(content, ANCHOR_INCLUDE@)->0 + ANCHOR_INCLUDE@.len();
    let out = injected(content);
    let at = if e <= d {
        d + registration_piece().len()
    } else {
        d
    };
    reveal_strlit("# === alas-launcher:control-api ===");
    reveal_strlit(
        "# === alas-launcher:control-api ===\nfrom module.webui.control_api import router as alas_control_router\n",
    );
    assert(out.subrange(at, at + MARKER@.len()) =~= MARKER@) by {
        assert forall|i: int| 0 <= i < MARKER@.len() implies out[at + i] == MARKER@[i] by {
            assert(out[at + i] == import_piece()[i]);
            assert(import_piece()[i] == INJECT_IMPORT@[i]);
        }
    }
    assert(text::occurs_at(out, MARKER@, at));
}

/// Whatever keeps the control interface from being there counts as a failure of the patch: a text
/// that could not be read, one that has not both places, and a file that could not be written. And
/// a failure is never forgotten.
pub proof fn patching_fails_closed(p: PatcherView, event: PatchEventView)
    ensures
        ({
            let (next, action) = patch_step(p, event);
            &&& p.failed ==> next.failed
            &&& action is Fail ==> next.failed
            &&& action == PatchActionView::Done(PatchOutcome::AnchorMismatch) ==> next.failed
            &&& !p.failed && next.failed ==> action is Fail || action == PatchActionView::Done(
                PatchOutcome::AnchorMismatch,
            )
        }),
{
}

/// The text that imports the module is written only after the module was, and it is the patched form
/// of the text that was read; where the module could not be written the text stays as it was.
pub proof fn the_importer_is_written_last(p: PatcherView, content: Seq<char>, ok: bool)
    requires
        !patched(content),
        has_anchors(content),
    ensures
        ({
            let (read, first) = patch_step(p, PatchEventView::Read { api_init: Some(content) });
            let (written, second) = patch_step(read, PatchEventView::ModuleWritten { ok });
            let (done, third) = patch_step(written, PatchEventView::InitWritten { ok: true });
            &&& first is WriteModule
            &&& ok ==> second == (PatchActionView::WriteInit { content: injected(content) })
            &&& !ok ==> second is Fail
            &&& third == PatchActionView::Done(PatchOutcome::Applied)
        }),
        forall|q: PatcherView, event: PatchEventView|
            (#[trigger] patch_step(q, event)).1 is WriteInit ==> event == (
            PatchEventView::ModuleWritten { ok: true }),
{
}

/// A text counts as patched exactly if the launcher's mark stands in it, and can be patched exactly if
/// both the function and the registration of the events stand in it.
pub proof fn what_can_be_patched(content: Seq<char>)
    ensures
        patched(content) <==> exists|a: Seq<char>, b: Seq<char>|
            content == #[trigger] (a + "# === alas-launcher:control-api ==="@ + b),
        has_anchors(content) <==> (exists|a: Seq<char>, b: Seq<char>|
            content == #[trigger] (a + "def create_api_app() -> FastAPI:"@ + b)) && (exists|
            a: Seq<char>,
            b: Seq<char>,
        |
            content == #[trigger] (a + "    app.include_router(events.router)"@ + b)),
{
    text::what_a_text_contains(content, "# === alas-launcher:control-api ==="@);
    text::what_a_text_contains(content, "def create_api_app() -> FastAPI:"@);
    text::what_a_text_contains(content, "    app.include_router(events.router)"@);
}

/// What is done to apply the patch: nothing where it was applied before or cannot be; else the module
/// is written, then the text, and then it is applied. A failure is remembered, and no other step
/// changes whether one is.
pub proof fn how_the_patch_is_applied(p: PatcherView, event: PatchEventView)
    ensures
        ({
            let (next, action) = patch_step(p, event);
            let read = event is Read && event->api_init is Some;
            let content = event->api_init->0;
            let clean = read && !patched(content);
            let failed = (event is Read && event->api_init is None) || event == (
            PatchEventView::ModuleWritten { ok: false }) || event == (PatchEventView::InitWritten {
                ok: false,
            });
            &&& action is Fail <==> failed
            &&& action is WriteModule <==> clean && has_anchors(content)
            &&& action == PatchActionView::Done(PatchOutcome::AlreadyApplied) <==> read && patched(
                content,
            )
            &&& action == PatchActionView::Done(PatchOutcome::AnchorMismatch) <==> clean
                && !has_anchors(content)
            &&& action == PatchActionView::Done(PatchOutcome::Applied) <==> event == (
            PatchEventView::InitWritten { ok: true })
            &&& event == (PatchEventView::ModuleWritten { ok: true }) ==> action == (
            PatchActionView::WriteInit { content: p.pending })
            &&& next.failed <==> p.failed || failed || (clean && !has_anchors(content))
            &&& next.pending == (if clean && has_anchors(content) {
                injected(content)
            } else {
                p.pending
            })
        }),
{
}

/// The two pieces that are put in are the import of the router behind the launcher's mark, and its
/// registration in a line of its own.
pub proof fn what_is_put_in()
    ensures
        import_piece()
            == "# === alas-launcher:control-api ===\nfrom module.webui.control_api import router as alas_control_router\n\n"@,
        registration_piece() == "\n    app.include_router(alas_control_router)\n"@,
{
    reveal_strlit(
        "# === alas-launcher:control-api ===\nfrom module.webui.control_api import router as alas_control_router\n",
    );
    reveal_strlit(
        "# === alas-launcher:control-api ===\nfrom module.webui.control_api import router as alas_control_router\n\n",
    );
    reveal_strlit("\n");
    reveal_strlit("    app.include_router(alas_control_router)\n");
    reveal_strlit("\n    app.include_router(alas_control_router)\n");
    assert(import_piece()
        =~= "# === alas-launcher:control-api ===\nfrom module.webui.control_api import router as alas_control_router\n\n"@);
    assert(registration_piece() =~= "\n    app.include_router(alas_control_router)\n"@);
}

} // verus!
