//! The typed configuration of a bot instance: how it is loaded from what
//! a script exposed, what it answers on commands and buttons, and which
//! notifications fire next.

pub mod dialog;
pub mod function;
pub mod inject;
pub mod notification;
pub mod result;
pub mod time;
pub mod traits;
pub mod value;

use std::sync::Arc;

use vstd::prelude::*;

use crate::clock::{plus_seconds, Timestamp, MAX_SECONDS, MIN_SECONDS};
use crate::config::dialog::message::{with_defaults, with_literal, BotMessage};
use crate::config::dialog::{
    dialog_model_wf, dialog_of, lemma_dialog_attached_wf, lemma_dialog_wf, BotDialog, DialogModel,
};
use crate::config::notification::batch::{
    is_nearest, nearest_batch, nothing_pending, places_of, NotificationBatch,
};
use crate::config::notification::{
    lemma_notification_models, notification_models, notifications_from_raw, notifications_in,
    spec_left_time, BotNotification, NotificationModel,
};
use crate::config::result::LoadError;
use crate::config::traits::provider::Provider;
use crate::config::value::{
    find_field, found_model, functions_of, given_field, int_in, stripped, Number, RawModel,
    RawValue,
};
use crate::runtimes::v8::value_replace::replace;
use crate::text::str_eq;
use crate::utils::parcelable::{
    head_of, leaf_fault, split_path, tail_of, ParcelFault, ParcelType, Parcelable, ParcelableError,
    ParcelableResult,
};
use crate::utils::table::lemma_key_index;

verus! {

/// The typed configuration of one bot instance. It is made when a script is
/// loaded and never changed: a reload makes a new one.
pub struct RunnerConfig<P: Provider> {
    pub config: BotConfig,
    pub dialog: BotDialog<P>,
    pub notifications: Vec<BotNotification<P>>,
    pub created_at: ConfigCreatedAt,
}

/// When a configuration was made.
#[derive(Clone, Copy, Debug)]
pub struct ConfigCreatedAt {
    pub at: Timestamp,
}

#[derive(Clone, Copy, Debug, PartialEq, Eq, Structural)]
pub struct BotConfig {
    pub version: Number,
    /// relative to UTC, for e.g.,
    /// timezone = 3 will be UTC+3,
    /// timezone =-2 will be UTC-2,
    pub timezone: i8,
}

/// The mathematical form of a `RunnerConfig`.
pub struct ConfigModel<F> {
    pub config: BotConfig,
    pub dialog: DialogModel<F>,
    pub notifications: Seq<NotificationModel<F>>,
    pub created_at: Timestamp,
}

/// The block `config` as a script writes it: an object with the number
/// `version` and the optional whole number `timezone`, from -128 to 127,
/// which counts as 0 where it is missing.
pub open spec fn bot_config_of<F>(raw: RawModel<F>) -> Option<BotConfig> {
    match raw {
        RawModel::Object(fields) => {
            let version = match given_field(fields, "version"@) {
                Some(RawModel::Int(n)) => Some(Number::Int(n)),
                Some(RawModel::Float(bits)) => Some(Number::Float(bits)),
                _ => None,
            };
            let timezone = int_in(given_field(fields, "timezone"@), -128, 127);
            match (version, timezone) {
                (Some(version), Some(timezone)) => Some(
                    BotConfig {
                        version,
                        timezone: match timezone {
                            Some(t) => t as i8,
                            None => 0,
                        },
                    },
                ),
                _ => None,
            }
        },
        _ => None,
    }
}

/// The typed configuration that stands for what a script exposed: an
/// object with the blocks `config` and `dialog` and the optional list
/// `notifications`. Where a part has not the shape that it must have, the
/// first such part is told.
pub open spec fn runner_config_of<F>(raw: RawModel<F>, created_at: Timestamp, live: bool) -> Result<
    ConfigModel<F>,
    LoadError,
> {
    match raw {
        RawModel::Object(fields) => {
            let config = match given_field(fields, "config"@) {
                Some(c) => bot_config_of(c),
                None => None,
            };
            let dialog = match given_field(fields, "dialog"@) {
                Some(d) => dialog_of(d, live),
                None => None,
            };
            let notifications = notifications_in(given_field(fields, "notifications"@), live);
            if config is None {
                Err(LoadError::Config)
            } else if dialog is None {
                Err(LoadError::Dialog)
            } else if notifications is None {
                Err(LoadError::Notifications)
            } else {
                Ok(
                    ConfigModel {
                        config: config->0,
                        dialog: dialog->0,
                        notifications: notifications->0,
                        created_at,
                    },
                )
            }
        },
        _ => Err(LoadError::Root),
    }
}

/// The configuration after the first `n` callables of `found` have been
/// put back, each at its dotted path, and the paths at which no slot was
/// found, in their order.
pub open spec fn attach_all<P: Provider>(
    model: ConfigModel<P::Function>,
    found: Seq<(Seq<char>, P::Function)>,
    n: nat,
) -> (ConfigModel<P::Function>, Seq<Seq<char>>)
    decreases n,
{
    if n == 0 || n > found.len() {
        (model, Seq::empty())
    } else {
        let before = attach_all::<P>(model, found, (n - 1) as nat);
        match <RunnerConfig<P> as Parcelable<P::Function>>::attached(
            before.0,
            Some(found[n - 1].0),
            found[n - 1].1,
        ) {
            Ok(m) => (m, before.1),
            Err(_) => (before.0, before.1.push(found[n - 1].0)),
        }
    }
}

/// The characters of each text.
pub open spec fn texts_of(texts: Seq<String>) -> Seq<Seq<char>> {
    Seq::new(texts.len(), |i: int| texts[i]@)
}

impl BotConfig {
    /// Reads the block `config` from a value of a script.
    pub fn from_raw<F>(raw: &RawValue<F>) -> (config: Option<Self>)
        ensures
            config == bot_config_of(raw.model()),
    {
        let fields = match raw.as_object() {
            Some(fields) => fields,
            None => {
                return None;
            },
        };
        let version = match find_field(fields, "version") {
            Some(RawValue::Int(n)) => Number::Int(*n),
            Some(RawValue::Float(bits)) => Number::Float(*bits),
            _ => {
                return None;
            },
        };
        match RawValue::optional_int(find_field(fields, "timezone"), -128, 127) {
            Some(timezone) => Some(
                BotConfig {
                    version,
                    timezone: match timezone {
                        Some(t) => t as i8,
                        None => 0,
                    },
                },
            ),
            None => None,
        }
    }
}

/// The instant `dt` moved by `timezone` hours.
pub open spec fn spec_timezoned(timezone: i8, dt: Timestamp) -> Timestamp {
    Timestamp { secs: (dt.secs + timezone * 3600) as i64, nanos: dt.nanos }
}

/// The time left of each rule, in the order of the rules.
pub open spec fn left_times<P: Provider>(
    rules: Seq<BotNotification<P>>,
    start_time: Timestamp,
    now: Timestamp,
) -> Seq<u64> {
    Seq::new(rules.len(), |i: int| spec_left_time(rules[i].time, start_time, now) as u64)
}

/// The rules at the places `places`, in the order of the places.
pub open spec fn rules_at<'a, P: Provider>(
    rules: Seq<BotNotification<P>>,
    places: Seq<usize>,
) -> Seq<&'a BotNotification<P>> {
    Seq::new(places.len(), |k: int| &rules[places[k] as int])
}

impl<P: Provider> RunnerConfig<P> {
    /// Every table of the dialog holds each name once.
    pub open spec fn wf(&self) -> bool {
        self.dialog.wf()
    }

    /// Whether the configuration is what a load gives for what a script
    /// exposed: the plain data of the script is a configuration, each name
    /// stands once in each table, and each callable of the script has been
    /// put back into the slot at its path.
    pub open spec fn loaded_from(&self, raw: RawModel<P::Function>, created_at: Timestamp) -> bool {
        &&& self.wf()
        &&& runner_config_of(stripped(raw, Seq::empty()), created_at, false) matches Ok(typed) && ({
            let found = functions_of(raw, Seq::empty());
            self.model() == attach_all::<P>(typed, found, found.len()).0
        })
    }

    /// The configuration as a mathematical value.
    pub open spec fn model(&self) -> ConfigModel<P::Function> {
        ConfigModel {
            config: self.config,
            dialog: self.dialog.model(),
            notifications: notification_models(self.notifications@),
            created_at: self.created_at.at,
        }
    }

    /// Builds the typed configuration from what a script exposed, live
    /// callables and all, in three passes. The callables are taken out of
    /// the tree, each leaving a placeholder with its dotted path. The
    /// typed configuration is built from the tree of plain data. Each
    /// callable is then put back into the slot at its path. A path at which
    /// the typed configuration has no slot does not fail the load: the
    /// callable is dropped, and the path handed back for the log.
    pub fn load(raw: RawValue<P::Function>, created_at: Timestamp) -> (loaded: Result<
        (Self, Vec<String>),
        LoadError,
    >)
        ensures
            match runner_config_of(stripped(raw.model(), Seq::empty()), created_at, false) {
                Ok(typed) => loaded matches Ok((config, skipped)) && config.wf() && ({
                    let found = functions_of(raw.model(), Seq::empty());
                    let done = attach_all::<P>(typed, found, found.len());
                    config.model() == done.0 && texts_of(skipped@) == done.1
                }),
                Err(e) => loaded matches Err(x) && x == e,
            },
            loaded matches Ok((config, _)) ==> config.loaded_from(raw.model(), created_at),
    {
        let mut outmap: Vec<(String, P::Function)> = Vec::new();
        proof {
            reveal_strlit("");
            assert(""@ =~= Seq::<char>::empty());
            assert(found_model(outmap@) =~= Seq::empty());
        }
        let plain = replace(raw, "", &mut outmap);
        let mut config = match Self::from_raw(&plain, created_at) {
            Ok(config) => config,
            Err(e) => {
                return Err(e);
            },
        };
        let ghost typed = config.model();
        let ghost found = functions_of(raw.model(), Seq::<char>::empty());
        let ghost all = outmap@;
        proof {
            assert(found_model(all) =~= found);
            lemma_dialog_wf(config.dialog);
        }
        let mut skipped: Vec<String> = Vec::new();
        for entry in it: outmap
            invariant
                it.seq() == all,
                found == found_model(all),
                dialog_model_wf(config.model().dialog),
                config.model() == attach_all::<P>(typed, found, it.index() as nat).0,
                texts_of(skipped@) == attach_all::<P>(typed, found, it.index() as nat).1,
        {
            let ghost n = it.index();
            let ghost before = config.model();
            proof {
                assert(entry == all[n]);
                assert(found[n] == (entry.0@, entry.1));
            }
            let (path, function) = entry;
            proof {
                lemma_dialog_attached_wf::<P>(
                    before.dialog,
                    crate::utils::parcelable::tail_of(path@),
                    function,
                );
            }
            match config.attach(Some(path.as_str()), Arc::new(function)) {
                Ok(()) => {},
                Err(_) => {
                    proof {
                        assert(texts_of(skipped@.push(path)) =~= texts_of(skipped@).push(path@));
                    }
                    skipped.push(path);
                },
            }
        }
        proof {
            lemma_dialog_wf(config.dialog);
        }
        Ok((config, skipped))
    }

    /// The structural pass: builds the typed configuration from what a
    /// script exposed, once the callables have been taken out of it. Every
    /// slot of a callable then holds a placeholder.
    pub fn from_raw(raw: &RawValue<P::Function>, created_at: Timestamp) -> (loaded: Result<
        Self,
        LoadError,
    >)
        ensures
            match runner_config_of(raw.model(), created_at, false) {
                Ok(m) => loaded matches Ok(c) && c.wf() && c.model() == m,
                Err(e) => loaded matches Err(x) && x == e,
            },
    {
        let fields = match raw.as_object() {
            Some(fields) => fields,
            None => {
                return Err(LoadError::Root);
            },
        };
        let config = match find_field(fields, "config") {
            Some(c) => BotConfig::from_raw(c),
            None => None,
        };
        let config = match config {
            Some(c) => c,
            None => {
                return Err(LoadError::Config);
            },
        };
        let dialog = match find_field(fields, "dialog") {
            Some(d) => BotDialog::from_raw(d),
            None => None,
        };
        let dialog = match dialog {
            Some(d) => d,
            None => {
                return Err(LoadError::Dialog);
            },
        };
        let notifications = match notifications_from_raw(find_field(fields, "notifications")) {
            Some(n) => n,
            None => {
                return Err(LoadError::Notifications);
            },
        };
        Ok(RunnerConfig { config, dialog, notifications, created_at: ConfigCreatedAt { at: created_at } })
    }

    /// The message of the command `command`, as the dialog holds it.
    pub open spec fn command_entry(&self, command: Seq<char>) -> Option<BotMessage<P>> {
        self.dialog.commands.spec_get(command)
    }

    /// The message of the variant `variant` of the command `command`, as the
    /// dialog holds it.
    pub open spec fn variant_entry(&self, command: Seq<char>, variant: Seq<char>) -> Option<
        BotMessage<P>,
    > {
        match self.dialog.variants.spec_get(command) {
            Some(table) => table.spec_get(variant),
            None => None,
        }
    }

    /// command without starting `/`
    ///
    /// The message of a command, its literal defaulted to the command's
    /// name, and its defaults set.
    pub fn get_command_message(&self, command: &str) -> (message: Option<BotMessage<P>>)
        requires
            self.wf(),
        ensures
            match self.command_entry(command@) {
                Some(entry) => message matches Some(m) && m.model() == with_defaults(
                    with_literal(entry.model(), command@),
                ),
                None => message is None,
            },
    {
        match self.dialog.commands.get(command) {
            Some(bm) => Some(bm.duplicate().fill_literal(command.to_owned()).update_defaults()),
            None => None,
        }
    }

    /// The message of a variant of a command; the message of the command
    /// itself where the command has no such variant. The literal is
    /// defaulted to the command's name in either case.
    pub fn get_command_message_varianted(&self, command: &str, variant: &str) -> (message: Option<
        BotMessage<P>,
    >)
        requires
            self.wf(),
        ensures
            match self.command_entry(command@) {
                Some(entry) => message matches Some(m) && m.model() == with_defaults(
                    with_literal(
                        match self.variant_entry(command@, variant@) {
                            Some(varianted) => varianted.model(),
                            None => entry.model(),
                        },
                        command@,
                    ),
                ),
                None => message is None,
            },
    {
        if !self.dialog.commands.contains_key(command) {
            return None;
        }
        // fallback to regular if not found

        let variants = match self.dialog.variants.position(command) {
            Some(i) => {
                proof {
                    lemma_key_index(self.dialog.variants.entries@, i as int);
                }
                &self.dialog.variants.entries[i].1
            },
            None => {
                return self.get_command_message(command);
            },
        };
        // get variant of message
        let bm = match variants.get(variant) {
            Some(bm) => bm,
            None => {
                return self.get_command_message(command);
            },
        };
        Some(bm.duplicate().fill_literal(command.to_owned()).update_defaults())
    }

    /// The message of a button, its literal defaulted to the name of the
    /// callback.
    pub fn get_callback_message(&self, callback: &str) -> (message: Option<BotMessage<P>>)
        requires
            self.wf(),
        ensures
            match self.dialog.buttons.spec_get(callback@) {
                Some(entry) => message matches Some(m) && m.model() == with_literal(
                    entry.model(),
                    callback@,
                ),
                None => message is None,
            },
    {
        match self.dialog.buttons.get(callback) {
            Some(bm) => Some(bm.duplicate().fill_literal(callback.to_owned())),
            None => None,
        }
    }

    /// Whether `dt`, moved into the configured time zone, is an instant
    /// that `Timestamp` can hold.
    pub open spec fn zone_fits(&self, dt: Timestamp) -> bool {
        MIN_SECONDS <= dt.secs + self.config.timezone * 3600 <= MAX_SECONDS
    }

    /// The time at which the configuration was made, in the configured time
    /// zone.
    pub fn created_at(&self) -> (at: Timestamp)
        requires
            self.created_at.at.wf(),
            self.zone_fits(self.created_at.at),
        ensures
            at == spec_timezoned(self.config.timezone, self.created_at.at),
            at.wf(),
    {
        self.timezoned_time(self.created_at.at)
    }

    /// The instant `dt` moved into the configured time zone.
    pub fn timezoned_time(&self, dt: Timestamp) -> (moved: Timestamp)
        requires
            dt.wf(),
            self.zone_fits(dt),
        ensures
            moved == spec_timezoned(self.config.timezone, dt),
            moved.wf(),
    {
        let hours: i64 = self.config.timezone as i64;
        match plus_seconds(dt, hours * 3600) {
            Some(moved) => moved,
            None => dt,
        }
    }

    /// Tells whether `dt`, moved into the configured time zone, can be
    /// held.
    pub fn zone_holds(&self, dt: Timestamp) -> (fits: bool)
        requires
            dt.wf(),
        ensures
            fits == self.zone_fits(dt),
    {
        let shift: i64 = self.config.timezone as i64 * 3600;
        MIN_SECONDS - shift <= dt.secs && dt.secs <= MAX_SECONDS - shift
    }

    /// Whether the next batch can be told at `now`: the creation time and
    /// `now` can be moved into the time zone, and the next firing time of
    /// every rule can be held.
    pub open spec fn plannable(&self, now: Timestamp) -> bool {
        &&& self.created_at.at.wf()
        &&& now.wf()
        &&& self.zone_fits(self.created_at.at)
        &&& self.zone_fits(now)
        &&& forall|i: int|
            0 <= i < self.notifications@.len() ==> (#[trigger] self.notifications@[i]).time.next_fits(
                spec_timezoned(self.config.timezone, now),
            )
    }

    /// The time left of each rule at `now`.
    pub open spec fn lefts_at(&self, now: Timestamp) -> Seq<u64> {
        left_times(
            self.notifications@,
            spec_timezoned(self.config.timezone, self.created_at.at),
            spec_timezoned(self.config.timezone, now),
        )
    }

    /// Whether `batch` is the batch that fires next, seen from `now`: it
    /// waits for the least time left among the rules with more than one
    /// second left, and holds every rule with exactly that time left, in
    /// the order of the rules.
    pub open spec fn is_batch_at(&self, batch: NotificationBatch<P>, now: Timestamp) -> bool {
        &&& is_nearest(self.lefts_at(now), batch.spec_wait_for())
        &&& batch.spec_notifications() == rules_at(
            self.notifications@,
            places_of(self.lefts_at(now), batch.spec_wait_for()),
        )
    }

    /// Tells whether the next batch can be told at `now`.
    pub fn can_plan(&self, now: Timestamp) -> (fits: bool)
        requires
            now.wf(),
        ensures
            fits == self.plannable(now),
    {
        if !(self.created_at.at.secs >= MIN_SECONDS && self.created_at.at.secs <= MAX_SECONDS
            && self.created_at.at.nanos < 1_000_000_000) {
            return false;
        }
        if !self.zone_holds(self.created_at.at) || !self.zone_holds(now) {
            return false;
        }
        let zoned = self.timezoned_time(now);
        let mut i: usize = 0;
        while i < self.notifications.len()
            invariant
                i <= self.notifications@.len(),
                zoned.wf(),
                zoned == spec_timezoned(self.config.timezone, now),
                forall|k: int|
                    0 <= k < i ==> (#[trigger] self.notifications@[k]).time.next_fits(zoned),
            decreases self.notifications@.len() - i,
        {
            if !self.notifications[i].time.can_schedule(zoned) {
                proof {
                    assert(!self.notifications@[i as int].time.next_fits(zoned));
                }
                return false;
            }
            i += 1;
        }
        true
    }

    /// The batch of rules that fires next, seen from `now`; `None` where no
    /// rule has more than one second left.
    pub fn nearest_notifications(&self, now: Timestamp) -> (nearest: Option<NotificationBatch<P>>)
        requires
            self.plannable(now),
        ensures
            match nearest {
                Some(batch) => self.is_batch_at(batch, now),
                None => nothing_pending(self.lefts_at(now)),
            },
    {
        let start_time = self.created_at();
        let now = self.timezoned_time(now);
        let mut lefts: Vec<u64> = Vec::new();
        let mut i: usize = 0;
        while i < self.notifications.len()
            invariant
                i <= self.notifications@.len(),
                start_time.wf(),
                now.wf(),
                forall|k: int|
                    0 <= k < self.notifications@.len() ==> (
                    #[trigger] self.notifications@[k]).time.next_fits(now),
                lefts@ == left_times(self.notifications@.take(i as int), start_time, now),
            decreases self.notifications@.len() - i,
        {
            let left = self.notifications[i].left_time(start_time, now);
            lefts.push(left);
            proof {
                assert(lefts@ =~= left_times(self.notifications@.take(i + 1), start_time, now));
            }
            i += 1;
        }
        proof {
            assert(self.notifications@.take(i as int) =~= self.notifications@);
        }
        match nearest_batch(&lefts) {
            None => None,
            Some((wait, places)) => {
                // get all that should be sent at the same time
                let mut notifications: Vec<&BotNotification<P>> = Vec::new();
                let mut k: usize = 0;
                proof {
                    lemma_places_in_range(lefts@, wait);
                }
                while k < places.len()
                    invariant
                        k <= places@.len(),
                        forall|j: int|
                            0 <= j < places@.len() ==> (#[trigger] places@[j])
                                < self.notifications@.len(),
                        notifications@ == rules_at(self.notifications@, places@.take(k as int)),
                    decreases places@.len() - k,
                {
                    notifications.push(&self.notifications[places[k]]);
                    proof {
                        assert(notifications@ =~= rules_at(
                            self.notifications@,
                            places@.take(k + 1),
                        ));
                    }
                    k += 1;
                }
                proof {
                    assert(places@.take(k as int) =~= places@);
                }
                Some(NotificationBatch::new(wait, notifications))
            },
        }
    }

    /// The batch of rules that fires next, seen from the time that the
    /// machine's clock shows. `None` where no rule has more than one second
    /// left, and where the clock shows a time from which the firing times
    /// cannot be held.
    pub fn get_nearest_notifications(&self) -> (nearest: Option<NotificationBatch<P>>)
        ensures
            nearest matches Some(batch) ==> exists|now: Timestamp|
                self.plannable(now) && self.is_batch_at(batch, now),
    {
        let now = match Timestamp::now() {
            Some(now) => now,
            None => {
                return None;
            },
        };
        if !self.can_plan(now) {
            return None;
        }
        let nearest = self.nearest_notifications(now);
        proof {
            if nearest is Some {
                assert(self.plannable(now) && self.is_batch_at(nearest->0, now));
            }
        }
        nearest
    }
}

impl<P: Provider> Parcelable<P::Function> for RunnerConfig<P> {
    type Model = ConfigModel<P::Function>;

    open spec fn parcel_model(&self) -> ConfigModel<P::Function> {
        self.model()
    }

    /// A configuration resolves its blocks by their names; the block
    /// `config` is a leaf.
    open spec fn attached(
        model: ConfigModel<P::Function>,
        path: Option<Seq<char>>,
        function: P::Function,
    ) -> Result<ConfigModel<P::Function>, ParcelFault> {
        match path {
            None => Err(ParcelFault::Resolve),
            Some(p) => {
                let name = head_of(p);
                let rest = tail_of(p);
                if name == "config"@ {
                    Err(leaf_fault(rest))
                } else if name == "dialog"@ {
                    match <BotDialog<P> as Parcelable<P::Function>>::attached(
                        model.dialog,
                        rest,
                        function,
                    ) {
                        Ok(dialog) => Ok(ConfigModel { dialog, ..model }),
                        Err(fault) => Err(fault),
                    }
                } else if name == "notifications"@ {
                    match <Vec<BotNotification<P>> as Parcelable<P::Function>>::attached(
                        model.notifications,
                        rest,
                        function,
                    ) {
                        Ok(notifications) => Ok(ConfigModel { notifications, ..model }),
                        Err(fault) => Err(fault),
                    }
                } else {
                    Err(ParcelFault::Field)
                }
            },
        }
    }

    open spec fn kind_of(model: ConfigModel<P::Function>) -> ParcelType {
        ParcelType::Parcelable
    }

    proof fn lemma_slot(model: ConfigModel<P::Function>, function: P::Function) {
    }

    fn resolve(&self) -> (kind: ParcelType) {
        ParcelType::Parcelable
    }

    fn attach(&mut self, path: Option<&str>, function: Arc<P::Function>) -> (done:
        ParcelableResult<()>) {
        let path = match path {
            Some(path) => path,
            None => {
                return Err(ParcelableError::not_a_slot());
            },
        };
        let (name, rest) = split_path(path);
        proof {
            lemma_notification_models(self.notifications);
        }
        let done = if str_eq(name, "config") {
            Err(ParcelableError::at_leaf(rest))
        } else if str_eq(name, "dialog") {
            self.dialog.attach(rest, function)
        } else if str_eq(name, "notifications") {
            self.notifications.attach(rest, function)
        } else {
            Err(ParcelableError::no_field(name))
        };
        proof {
            lemma_notification_models(self.notifications);
        }
        done
    }
}

/// The places at which a time stands lie within the sequence.
pub proof fn lemma_places_in_range(lefts: Seq<u64>, wait: u64)
    requires
        lefts.len() <= usize::MAX,
    ensures
        forall|j: int|
            0 <= j < places_of(lefts, wait).len() ==> (#[trigger] places_of(lefts, wait)[j])
                < lefts.len(),
    decreases lefts.len(),
{
    if lefts.len() > 0 {
        lemma_places_in_range(lefts.drop_last(), wait);
        let rest = places_of(lefts.drop_last(), wait);
        assert forall|j: int| 0 <= j < places_of(lefts, wait).len() implies (#[trigger] places_of(
            lefts,
            wait,
        )[j]) < lefts.len() by {
            if j < rest.len() {
                assert(places_of(lefts, wait)[j] == rest[j]);
            }
        }
    }
}

} // verus!
