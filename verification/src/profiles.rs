//! Named profiles: what the window offers, in which order a profile is saved,
//! and what the dialogs do.
//!
//! A profile store that could not be read is never written: what lies on disk
//! may be the only copy.
use vstd::prelude::*;

use crate::form;
use crate::form::FormState;
use crate::json;
use crate::json::JsonView;
use crate::naming;
use crate::numeral;
use crate::text;
use crate::wire;
use crate::wire::ConfigWire;

verus! {

/// What came of reading the profile store at startup.
pub enum StoreLoad {
    Loaded,
    /// It could not be parsed; moving it aside gave its new path or an error.
    Corrupt { message: String, backup: Result<String, String> },
    /// It could not be read at all.
    Unreadable { error: String },
}

/// How the program starts: whether the store may be written, and what to say.
pub struct StoreStart {
    pub load_ok: bool,
    pub message: Option<String>,
}

/// Decides on the store at startup.
pub fn start_store(load: &StoreLoad) -> (r: StoreStart)
    ensures
        match *load {
            StoreLoad::Loaded => r.load_ok && r.message is None,
            StoreLoad::Corrupt { message, backup: Ok(path) } => r.load_ok && (r.message matches Some(m)
                && m@ == "profiles.json was unreadable ("@ + message@ + "); backed up to "@ + path@),
            StoreLoad::Corrupt { message, backup: Err(e) } => !r.load_ok && (r.message matches Some(m)
                && m@ == "profiles.json was unreadable ("@ + message@ + ") and backup also failed ("@
                + e@
                + "). Profile saves are disabled until you move the file aside manually."@),
            StoreLoad::Unreadable { error } => !r.load_ok && (r.message matches Some(m) && m@
                == "profiles.json could not be loaded ("@ + error@
                + "). Profile saves are disabled to avoid clobbering the on-disk file."@),
        },
{
    match load {
        StoreLoad::Loaded => StoreStart { load_ok: true, message: None },
        StoreLoad::Corrupt { message, backup } => match backup {
            Ok(path) => StoreStart {
                load_ok: true,
                message: Some(
                    "profiles.json was unreadable (".to_owned().concat(message.as_str()).concat(
                        "); backed up to ",
                    ).concat(path.as_str()),
                ),
            },
            Err(e) => StoreStart {
                load_ok: false,
                message: Some(
                    "profiles.json was unreadable (".to_owned().concat(message.as_str()).concat(
                        ") and backup also failed (",
                    ).concat(e.as_str()).concat(
                        "). Profile saves are disabled until you move the file aside manually.",
                    ),
                ),
            },
        },
        StoreLoad::Unreadable { error } => StoreStart {
            load_ok: false,
            message: Some(
                "profiles.json could not be loaded (".to_owned().concat(error.as_str()).concat(
                    "). Profile saves are disabled to avoid clobbering the on-disk file.",
                ),
            ),
        },
    }
}

/// The first message to show: about the configuration if there is one, else
/// about the profiles.
pub fn first_message(config: Option<String>, profiles: Option<String>) -> (r: Option<String>)
    ensures
        r == (if config is Some {
            config
        } else {
            profiles
        }),
{
    match config {
        Some(m) => Some(m),
        None => profiles,
    }
}

/// How many names are tried for a backup.
pub const MAX_BACKUP_TRIES: u32 = 1000;

/// The extension of the backup file on the given try. `stamp` is the time.
pub open spec fn backup_ending(stamp: Seq<char>, tries: nat) -> Seq<char> {
    if tries == 0 {
        "json.corrupt-"@ + stamp
    } else {
        "json.corrupt-"@ + stamp + "-"@ + numeral::decimal(tries)
    }
}

/// Gives the extension of the backup file on the given try.
pub fn backup_extension(stamp: &str, tries: u32) -> (r: String)
    ensures
        r@ == backup_ending(stamp@, tries as nat),
{
    if tries == 0 {
        "json.corrupt-".to_owned().concat(stamp)
    } else {
        let n = numeral::to_decimal(tries as u64);
        "json.corrupt-".to_owned().concat(stamp).concat("-").concat(n.as_str())
    }
}

/// The try after `tries`, if the name is taken and another is to be tried. When
/// all tries are used up the last name is taken as it is.
pub fn next_backup_try(tries: u32, taken: bool) -> (r: Option<u32>)
    ensures
        match r {
            Some(n) => taken && tries + 1 < MAX_BACKUP_TRIES && n == tries + 1,
            None => !taken || tries + 1 >= MAX_BACKUP_TRIES,
        },
{
    if taken && tries < MAX_BACKUP_TRIES - 1 {
        Some(tries + 1)
    } else {
        None
    }
}

/// No two tries give the same name.
pub proof fn law_backup_names_differ(stamp: Seq<char>, a: nat, b: nat)
    requires
        a < b,
    ensures
        backup_ending(stamp, a) != backup_ending(stamp, b),
{
    reveal_strlit("-");
    let head = "json.corrupt-"@ + stamp;
    let x = backup_ending(stamp, a);
    let y = backup_ending(stamp, b);
    if x == y {
        assert(y.len() > head.len());
        if a > 0 {
            let h = head + "-"@;
            assert(x.skip(h.len() as int) =~= numeral::decimal(a));
            assert(y.skip(h.len() as int) =~= numeral::decimal(b));
            numeral::law_decimal_injective(a, b);
        }
    }
}

/// Which of the profile bar's controls are enabled.
pub struct BarControls {
    pub switch: bool,
    pub save_as: bool,
    pub manage: bool,
}

/// Decides on the profile bar's controls. Switching and saving rewrite the
/// configuration, which a running proxy would not take up; managing does not.
pub fn bar_controls(running: bool, load_ok: bool, names: &Vec<String>) -> (r: BarControls)
    ensures
        r.switch == !running,
        r.save_as == (load_ok && !running),
        r.manage == (load_ok && names@.len() > 0),
{
    BarControls {
        switch: !running,
        save_as: load_ok && !running,
        manage: load_ok && names.len() > 0,
    }
}

/// What the profile selector shows.
pub fn active_label(active: &str) -> (r: String)
    ensures
        r@ == (if active@.len() == 0 {
            "(none)"@
        } else {
            active@
        }),
{
    if active.is_empty() {
        "(none)".to_owned()
    } else {
        active.to_owned()
    }
}

/// How applying a profile ended.
pub enum ApplyOutcome {
    /// Nothing changed.
    Failed { error: String },
    Applied,
    /// The configuration is the profile's, but the marker was not saved.
    ConfigOnly { error: String },
}

/// Whether a switch took effect, so that store and form are loaded again.
pub fn takes_effect(outcome: &ApplyOutcome) -> (r: bool)
    ensures
        r == !(*outcome is Failed),
{
    match outcome {
        ApplyOutcome::Failed { .. } => false,
        _ => true,
    }
}

/// The message after a switch. `load_warning` is what loading the form again
/// came to.
pub fn switch_message(name: &str, outcome: &ApplyOutcome, load_warning: Option<&str>) -> (r: String)
    ensures
        r@ == (match *outcome {
            ApplyOutcome::Failed { error } => "Switch failed: "@ + error@,
            ApplyOutcome::ConfigOnly { error } => match load_warning {
                Some(w) => "Switched to '"@ + name@
                    + "' (live config updated) but pointer save failed: "@ + error@ + "; also: "@ + w@,
                None => "Switched to '"@ + name@
                    + "' (live config updated) but profile pointer save failed: "@ + error@,
            },
            ApplyOutcome::Applied => match load_warning {
                Some(w) => "Switched to '"@ + name@ + "' but: "@ + w@,
                None => "Switched to profile '"@ + name@ + "'"@,
            },
        }),
{
    match outcome {
        ApplyOutcome::Failed { error } => "Switch failed: ".to_owned().concat(error.as_str()),
        ApplyOutcome::ConfigOnly { error } => match load_warning {
            Some(w) => "Switched to '".to_owned().concat(name).concat(
                "' (live config updated) but pointer save failed: ",
            ).concat(error.as_str()).concat("; also: ").concat(w),
            None => "Switched to '".to_owned().concat(name).concat(
                "' (live config updated) but profile pointer save failed: ",
            ).concat(error.as_str()),
        },
        ApplyOutcome::Applied => match load_warning {
            Some(w) => "Switched to '".to_owned().concat(name).concat("' but: ").concat(w),
            None => "Switched to profile '".to_owned().concat(name).concat("'"),
        },
    }
}

/// What the dialog that saves a profile offers.
pub struct SaveAsOffer {
    /// The trimmed name; nothing while it is blank.
    pub name: Option<String>,
    /// There is a profile of this name: saving overwrites it.
    pub overwrite: bool,
}

/// Decides what the dialog offers for the name typed in.
pub fn save_as_offer(typed: &str, names: &Vec<String>) -> (r: SaveAsOffer)
    ensures
        match r.name {
            Some(n) => text::trimmed(typed@).len() > 0 && n@ == text::trimmed(typed@),
            None => text::trimmed(typed@).len() == 0,
        },
        r.overwrite == (text::trimmed(typed@).len() > 0 && text::texts(names@).contains(
            text::trimmed(typed@),
        )),
{
    let trimmed = text::trim(typed);
    if trimmed.as_str().is_empty() {
        SaveAsOffer { name: None, overwrite: false }
    } else {
        let overwrite = text::contains_text(names, trimmed.as_str());
        SaveAsOffer { name: Some(trimmed), overwrite }
    }
}

/// The refusal to write a store that could not be read.
pub open spec fn store_refusal() -> Seq<char> {
    "profiles.json on disk is unreadable; refusing to overwrite. Move it aside manually, then restart."@
}

/// The document to save as a profile, or why the form cannot be saved as one.
pub fn profile_document(load_ok: bool, f: &FormState) -> (r: Result<serde_json::Value, String>)
    ensures
        if !load_ok {
            r matches Err(m) && m@ == store_refusal()
        } else {
            match form::complaint(*f) {
                Some(e) => r matches Err(m) && m@ == "Form is invalid: "@ + e,
                None => r matches Ok(v) && exists|c: crate::config::Config|
                    #[trigger] form::is_config_of(*f, c) && json::json_view(v) == JsonView::Object(
                        wire::document(c),
                    ),
            }
        },
{
    if !load_ok {
        return Err(
            "profiles.json on disk is unreadable; refusing to overwrite. Move it aside manually, then restart.".to_owned(),
        );
    }
    match f.to_config() {
        Err(e) => Err("Form is invalid: ".to_owned().concat(e.as_str())),
        Ok(c) => {
            let w = ConfigWire::from(&c);
            let v = w.into_value();
            proof {
                assert(form::is_config_of(*f, c));
            }
            Ok(v)
        },
    }
}

/// Where the saving of a profile stands.
#[derive(Debug, Clone, Copy, PartialEq, Eq, Structural)]
pub enum SavePhase {
    /// The document is there; the store is to take it up, in memory only.
    Prepared,
    /// The configuration is being written.
    WritingConfig,
    /// The store is being written.
    WritingStore,
    Finished,
}

/// What to do next.
pub enum SaveAction {
    WriteConfig,
    WriteStore,
    /// The profile is saved: the store in memory is replaced and the form loaded
    /// again.
    Commit,
    /// Nothing was written.
    Fail { message: String },
    /// The configuration was written, the store was not: the form is loaded
    /// again.
    FailAfterConfig { message: String },
    /// Nothing is being saved.
    Ignore,
}

/// The phase after a step that went well or did not.
pub open spec fn next_phase(p: SavePhase, ok: bool) -> SavePhase {
    match p {
        SavePhase::Prepared => if ok {
            SavePhase::WritingConfig
        } else {
            SavePhase::Finished
        },
        SavePhase::WritingConfig => if ok {
            SavePhase::WritingStore
        } else {
            SavePhase::Finished
        },
        SavePhase::WritingStore => SavePhase::Finished,
        SavePhase::Finished => SavePhase::Finished,
    }
}

/// Takes up the outcome of a step in the saving of a profile. The configuration
/// is written before the store, and neither before the store has taken the
/// profile up in memory.
pub fn save_step(phase: &mut SavePhase, outcome: Result<(), String>) -> (a: SaveAction)
    ensures
        *final(phase) == next_phase(*old(phase), outcome is Ok),
        match *old(phase) {
            SavePhase::Prepared => match outcome {
                Ok(_) => a is WriteConfig,
                Err(e) => a == (SaveAction::Fail { message: e }),
            },
            SavePhase::WritingConfig => match outcome {
                Ok(_) => a is WriteStore,
                Err(e) => a matches SaveAction::Fail { message } && message@
                    == "write config.json failed: "@ + e@,
            },
            SavePhase::WritingStore => match outcome {
                Ok(_) => a is Commit,
                Err(e) => a matches SaveAction::FailAfterConfig { message } && message@
                    == "Live config saved, but writing the profile entry failed: "@ + e@
                    + ". Retry to save the profile."@,
            },
            SavePhase::Finished => a is Ignore,
        },
{
    match *phase {
        SavePhase::Prepared => match outcome {
            Ok(_) => {
                *phase = SavePhase::WritingConfig;
                SaveAction::WriteConfig
            },
            Err(e) => {
                *phase = SavePhase::Finished;
                SaveAction::Fail { message: e }
            },
        },
        SavePhase::WritingConfig => match outcome {
            Ok(_) => {
                *phase = SavePhase::WritingStore;
                SaveAction::WriteStore
            },
            Err(e) => {
                *phase = SavePhase::Finished;
                SaveAction::Fail {
                    message: "write config.json failed: ".to_owned().concat(e.as_str()),
                }
            },
        },
        SavePhase::WritingStore => {
            *phase = SavePhase::Finished;
            match outcome {
                Ok(_) => SaveAction::Commit,
                Err(e) => SaveAction::FailAfterConfig {
                    message: "Live config saved, but writing the profile entry failed: ".to_owned().concat(
                        e.as_str(),
                    ).concat(". Retry to save the profile."),
                },
            }
        },
        SavePhase::Finished => SaveAction::Ignore,
    }
}

/// The phase after steps that went well or did not.
pub open spec fn phase_after(outcomes: Seq<bool>) -> SavePhase
    decreases outcomes.len(),
{
    if outcomes.len() == 0 {
        SavePhase::Prepared
    } else {
        next_phase(phase_after(outcomes.drop_last()), outcomes.last())
    }
}

/// The store is written only after it took the profile up in memory and the
/// configuration was written: never is a profile marked active whose
/// configuration is not in place.
pub proof fn law_config_before_store(outcomes: Seq<bool>)
    requires
        phase_after(outcomes) == SavePhase::WritingStore,
    ensures
        outcomes == seq![true, true],
{
    reveal_with_fuel(phase_after, 3);
    let a = outcomes.drop_last();
    let b = a.drop_last();
    assert(phase_after(a) == SavePhase::WritingConfig);
    assert(phase_after(b) == SavePhase::Prepared);
    lemma_prepared_only_at_start(b);
    assert(outcomes =~= seq![true, true]);
}

proof fn lemma_prepared_only_at_start(outcomes: Seq<bool>)
    requires
        phase_after(outcomes) == SavePhase::Prepared,
    ensures
        outcomes.len() == 0,
{
}

/// The first of "name (copy)", "name (copy 2)", "name (copy 3)", … that is free.
pub open spec fn is_copy_name(names: Seq<Seq<char>>, name: Seq<char>, copy: Seq<char>) -> bool {
    if names.contains(name + " (copy)"@) {
        exists|n: nat|
            #[trigger] naming::is_first_free(names, name + " (copy "@, ")"@, n) && copy
                == naming::numbered(name + " (copy "@, n, ")"@)
    } else {
        copy == name + " (copy)"@
    }
}

/// The name for a copy of a profile.
pub fn copy_name(names: &Vec<String>, name: &str) -> (r: String)
    requires
        names@.len() + 3 <= u64::MAX,
    ensures
        is_copy_name(text::texts(names@), name@, r@),
{
    let first = name.to_owned().concat(" (copy)");
    if text::contains_text(names, first.as_str()) {
        let prefix = name.to_owned().concat(" (copy ");
        naming::first_free(names, prefix.as_str(), ")")
    } else {
        first
    }
}

/// A copy's name is never taken.
pub proof fn law_copy_name_is_free(names: Seq<Seq<char>>, name: Seq<char>, copy: Seq<char>)
    requires
        is_copy_name(names, name, copy),
    ensures
        !names.contains(copy),
{
}

/// The state of the dialog that manages profiles.
pub struct ManageState {
    /// What was typed as new names, by the profile's present name.
    pub rename_buf: Vec<(String, String)>,
    /// The profile that is being renamed.
    pub renaming: Option<String>,
    pub error: Option<String>,
    /// The profile whose deletion waits to be confirmed.
    pub pending_delete: Option<String>,
}

/// How a profile's row is shown.
#[derive(Debug, Clone, Copy, PartialEq, Eq, Structural)]
pub enum RowMode {
    Rename,
    ConfirmDelete,
    Plain,
}

/// An action of the dialog that changes the store.
pub enum ManageAction {
    CommitRename { from: String, to: String },
    Duplicate(String),
    Delete(String),
}

/// A name that may be set is this one.
pub open spec fn is_name(o: Option<String>, name: Seq<char>) -> bool {
    o matches Some(n) && n@ == name
}

/// How a profile's row is shown: renaming comes before deleting.
pub open spec fn mode_of(s: ManageState, name: Seq<char>) -> RowMode {
    if is_name(s.renaming, name) {
        RowMode::Rename
    } else if is_name(s.pending_delete, name) {
        RowMode::ConfirmDelete
    } else {
        RowMode::Plain
    }
}

fn is_named(o: &Option<String>, name: &str) -> (r: bool)
    ensures
        r == is_name(*o, name@),
{
    match o {
        Some(n) => text::same(n.as_str(), name),
        None => false,
    }
}

/// The buffers without those of one profile.
pub open spec fn without(buf: Seq<(String, String)>, name: Seq<char>) -> Seq<(String, String)>
    decreases buf.len(),
{
    if buf.len() == 0 {
        Seq::empty()
    } else {
        let before = without(buf.drop_last(), name);
        if buf.last().0@ == name {
            before
        } else {
            before.push(buf.last())
        }
    }
}

fn drop_buffer(buf: &Vec<(String, String)>, name: &str) -> (r: Vec<(String, String)>)
    ensures
        r@ == without(buf@, name@),
{
    let mut r: Vec<(String, String)> = Vec::new();
    let mut i: usize = 0;
    while i < buf.len()
        invariant
            i <= buf@.len(),
            r@ == without(buf@.take(i as int), name@),
        decreases buf@.len() - i,
    {
        proof {
            assert(buf@.take(i + 1).drop_last() =~= buf@.take(i as int));
        }
        if !text::same(buf[i].0.as_str(), name) {
            r.push((buf[i].0.clone(), buf[i].1.clone()));
        }
        i = i + 1;
    }
    proof {
        assert(buf@.take(i as int) =~= buf@);
    }
    r
}

impl ManageState {
    /// The dialog as it opens.
    pub fn new() -> (s: ManageState)
        ensures
            s.rename_buf@.len() == 0,
            s.renaming is None,
            s.error is None,
            s.pending_delete is None,
    {
        ManageState {
            rename_buf: Vec::new(),
            renaming: None,
            error: None,
            pending_delete: None,
        }
    }

    /// How a profile's row is shown.
    pub fn row_mode(&self, name: &str) -> (r: RowMode)
        ensures
            r == mode_of(*self, name@),
    {
        if is_named(&self.renaming, name) {
            RowMode::Rename
        } else if is_named(&self.pending_delete, name) {
            RowMode::ConfirmDelete
        } else {
            RowMode::Plain
        }
    }

    /// Rename was clicked.
    pub fn rename_clicked(&mut self, name: String)
        ensures
            *final(self) == (ManageState { renaming: Some(name), error: None, ..*old(self) }),
    {
        self.renaming = Some(name);
        self.error = None;
    }

    /// The buffer in which a profile is renamed, by its index. A profile that has
    /// none gets one that starts with its present name.
    pub fn rename_row(&mut self, name: &str) -> (i: usize)
        ensures
            i < final(self).rename_buf@.len(),
            final(self).rename_buf@[i as int].0@ == name@,
            forall|k: int| 0 <= k < i ==> (#[trigger] final(self).rename_buf@[k]).0@ != name@,
            final(self).rename_buf@ == old(self).rename_buf@ || (i == old(self).rename_buf@.len()
                && final(self).rename_buf@ == old(self).rename_buf@.push(
                final(self).rename_buf@[i as int],
            ) && final(self).rename_buf@[i as int].1@ == name@),
            final(self).renaming == old(self).renaming,
            final(self).error == old(self).error,
            final(self).pending_delete == old(self).pending_delete,
    {
        let mut i: usize = 0;
        while i < self.rename_buf.len()
            invariant
                i <= self.rename_buf@.len(),
                *self == *old(self),
                forall|k: int| 0 <= k < i ==> (#[trigger] self.rename_buf@[k]).0@ != name@,
            decreases self.rename_buf@.len() - i,
        {
            if text::same(self.rename_buf[i].0.as_str(), name) {
                return i;
            }
            i = i + 1;
        }
        self.rename_buf.push((name.to_owned(), name.to_owned()));
        i
    }

    /// Renaming was cancelled: what was typed is forgotten.
    pub fn rename_cancelled(&mut self, name: &str)
        ensures
            final(self).renaming is None,
            final(self).error is None,
            final(self).rename_buf@ == without(old(self).rename_buf@, name@),
            final(self).pending_delete == old(self).pending_delete,
    {
        self.renaming = None;
        self.rename_buf = drop_buffer(&self.rename_buf, name);
        self.error = None;
    }

    /// Delete was clicked: the deletion waits to be confirmed.
    pub fn delete_clicked(&mut self, name: String)
        ensures
            *final(self) == (ManageState { pending_delete: Some(name), error: None, ..*old(self) }),
    {
        self.pending_delete = Some(name);
        self.error = None;
    }

    /// Deleting was cancelled.
    pub fn delete_cancelled(&mut self)
        ensures
            *final(self) == (ManageState { pending_delete: None, error: None, ..*old(self) }),
    {
        self.pending_delete = None;
        self.error = None;
    }

    /// The store could not be read at startup: actions are refused.
    pub fn refused(&mut self)
        ensures
            *final(self) == (ManageState { error: final(self).error, ..*old(self) }),
            final(self).error matches Some(m) && m@ == store_refusal(),
    {
        self.error = Some(
            "profiles.json on disk is unreadable; refusing to overwrite. Move it aside manually, then restart.".to_owned(),
        );
    }

    /// An action was tried on a copy of the store: `changed` tells how the change
    /// went, `saved` how writing the copy went. The result tells whether the copy
    /// takes the store's place: only if both went well.
    pub fn finished(
        &mut self,
        action: &ManageAction,
        changed: Result<(), String>,
        saved: Result<(), String>,
    ) -> (commit: bool)
        ensures
            commit == (changed is Ok && saved is Ok),
            match changed {
                Err(e) => *final(self) == (ManageState { error: Some(e), ..*old(self) }),
                Ok(_) => match saved {
                    Err(e) => *final(self) == (ManageState {
                        error: final(self).error,
                        ..*old(self)
                    }) && (final(self).error matches Some(m) && m@ == "save failed: "@ + e@),
                    Ok(_) => match *action {
                        ManageAction::CommitRename { from, .. } => {
                            &&& final(self).renaming is None
                            &&& final(self).error is None
                            &&& final(self).rename_buf@ == without(old(self).rename_buf@, from@)
                            &&& final(self).pending_delete == old(self).pending_delete
                        },
                        ManageAction::Delete(_) => *final(self) == (ManageState {
                            pending_delete: None,
                            error: None,
                            ..*old(self)
                        }),
                        ManageAction::Duplicate(_) => *final(self) == (ManageState {
                            error: None,
                            ..*old(self)
                        }),
                    },
                },
            },
    {
        if let Err(e) = changed {
            self.error = Some(e);
            return false;
        }
        if let Err(e) = saved {
            self.error = Some("save failed: ".to_owned().concat(e.as_str()));
            return false;
        }
        self.error = None;
        match action {
            ManageAction::CommitRename { from, .. } => {
                self.renaming = None;
                self.rename_buf = drop_buffer(&self.rename_buf, from.as_str());
            },
            ManageAction::Delete(_) => {
                self.pending_delete = None;
            },
            ManageAction::Duplicate(_) => {},
        }
        true
    }
}

/// Deleting takes two clicks: the row that confirms it is shown only for the
/// profile whose deletion was asked for.
pub proof fn law_delete_is_confirmed(s: ManageState, name: Seq<char>)
    requires
        mode_of(s, name) == RowMode::ConfirmDelete,
    ensures
        is_name(s.pending_delete, name),
{
}

/// A profile is saved step by step: a success leads to the next step and at the
/// end to the finish, a failure to the finish at once, and what is finished
/// stays so.
pub proof fn law_steps_of_saving(p: SavePhase, ok: bool)
    ensures
        next_phase(p, false) is Finished,
        p is Prepared ==> next_phase(p, true) is WritingConfig,
        p is WritingConfig ==> next_phase(p, true) is WritingStore,
        p is WritingStore ==> next_phase(p, true) is Finished,
        p is Finished ==> next_phase(p, ok) is Finished,
{
}

/// A row of the manager asks for a new name while its profile is being renamed,
/// else for a confirmation while its deletion waits for one, and is plain
/// otherwise.
pub proof fn law_row_modes(s: ManageState, name: Seq<char>)
    ensures
        mode_of(s, name) is Rename <==> s.renaming is Some && s.renaming->0@ == name,
        mode_of(s, name) is ConfirmDelete <==> !(s.renaming is Some && s.renaming->0@ == name)
            && s.pending_delete is Some && s.pending_delete->0@ == name,
        mode_of(s, name) is Plain <==> !(s.renaming is Some && s.renaming->0@ == name) && !(
        s.pending_delete is Some && s.pending_delete->0@ == name),
{
}

/// Dropping what was typed for a profile keeps what was typed for every other,
/// in order.
pub proof fn law_only_that_name_is_dropped(
    a: Seq<(String, String)>,
    b: Seq<(String, String)>,
    row: (String, String),
    name: Seq<char>,
)
    ensures
        without(a + b, name) == without(a, name) + without(b, name),
        row.0@ == name ==> without(seq![row], name).len() == 0,
        row.0@ != name ==> without(seq![row], name) == seq![row],
    decreases b.len(),
{
    reveal_with_fuel(without, 2);
    assert(seq![row].drop_last() =~= Seq::empty());
    if row.0@ != name {
        assert(without(seq![row], name) =~= seq![row]);
    }
    if b.len() > 0 {
        law_only_that_name_is_dropped(a, b.drop_last(), row, name);
        assert((a + b).drop_last() =~= a + b.drop_last());
        assert((a + b).last() == b.last());
        assert(without(a + b, name) =~= without(a, name) + without(b, name));
    } else {
        assert(a + b =~= a);
        assert(without(a + b, name) =~= without(a, name) + without(b, name));
    }
}

/// A copy is named after its original: `name (copy)` while that is free, and
/// else `name (copy N)` with the smallest number from 2 on that is free.
pub proof fn law_copy_is_named_after_original(
    names: Seq<Seq<char>>,
    name: Seq<char>,
    copy: Seq<char>,
    m: nat,
)
    requires
        is_copy_name(names, name, copy),
    ensures
        !names.contains(name + " (copy)"@) ==> copy == name + " (copy)"@,
        names.contains(name + " (copy)"@) ==> exists|n: nat|
            n >= 2 && copy == #[trigger] (name + " (copy "@ + numeral::decimal(n) + ")"@) && (2 <= m
                < n ==> names.contains(name + " (copy "@ + numeral::decimal(m) + ")"@)),
{
    if names.contains(name + " (copy)"@) {
        let n = choose|n: nat|
            #[trigger] naming::is_first_free(names, name + " (copy "@, ")"@, n) && copy
                == naming::numbered(name + " (copy "@, n, ")"@);
        assert(copy == name + " (copy "@ + numeral::decimal(n) + ")"@);
        if 2 <= m < n {
            assert(names.contains(naming::numbered(name + " (copy "@, m, ")"@)));
        }
    }
}

} // verus!
