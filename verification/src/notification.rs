//! Notifications: their types, the sinks that emit them and the store that
//! keeps them, with read tracking. Times are Unix seconds.
use crate::text::{owned, push_str, IntoText};
use crate::clock::now_unix_seconds;
use vstd::prelude::*;

verus! {

/// Unique identifier for a notification.
#[derive(Debug, Clone, PartialEq, Eq, Hash)]
pub struct NotificationId(pub String);

impl View for NotificationId {
    type V = Seq<char>;

    open spec fn view(&self) -> Seq<char> {
        self.0@
    }
}

impl IntoText for NotificationId {
    open spec fn text(&self) -> Seq<char> {
        self@
    }

    fn into_text(self) -> (r: String) {
        self.0
    }
}

impl NotificationId {
    /// Builds the id from text.
    pub fn from<T: IntoText>(s: T) -> (r: NotificationId)
        ensures
            r@ == s.text(),
    {
        NotificationId(s.into_text())
    }

    /// The id as it is displayed: its text.
    pub fn to_string(&self) -> (r: String)
        ensures
            r@ == self@,
    {
        self.0.clone()
    }

    /// The id as text.
    pub fn as_str(&self) -> (r: &str)
        ensures
            r@ == self@,
    {
        self.0.as_str()
    }

    /// Whether two ids hold the same text.
    pub fn same(&self, other: &NotificationId) -> (r: bool)
        ensures
            r == (self@ == other@),
    {
        self.0 == other.0
    }

    /// An equal copy of the id.
    pub fn duplicate(&self) -> (r: NotificationId)
        ensures
            r == *self,
    {
        NotificationId(self.0.clone())
    }
}

/// Type of notification.
#[derive(Debug, Clone, Copy, PartialEq, Eq, Hash)]
pub enum NotificationType {
    /// Emitted when a reminder becomes due.
    ReminderDue,
    /// System alert (errors, warnings).
    SystemAlert,
    /// Informational message.
    Info,
}

impl NotificationType {
    /// The displayed type.
    pub open spec fn display(self) -> Seq<char> {
        match self {
            NotificationType::ReminderDue => "ReminderDue"@,
            NotificationType::SystemAlert => "SystemAlert"@,
            NotificationType::Info => "Info"@,
        }
    }

    /// The displayed type.
    pub fn to_string(&self) -> (r: String)
        ensures
            r@ == self.display(),
    {
        match self {
            NotificationType::ReminderDue => owned("ReminderDue"),
            NotificationType::SystemAlert => owned("SystemAlert"),
            NotificationType::Info => owned("Info"),
        }
    }
}

/// A notification.
#[derive(Debug, Clone, PartialEq)]
pub struct Notification {
    pub id: NotificationId,
    pub title: String,
    pub body: String,
    pub notification_type: NotificationType,
    pub source_reminder_id: Option<String>,
    pub created_at: i64,
    pub read_at: Option<i64>,
}

impl Notification {
    /// An equal copy of the notification.
    pub fn duplicate(&self) -> (r: Notification)
        ensures
            r == *self,
    {
        Notification {
            id: self.id.duplicate(),
            title: self.title.clone(),
            body: self.body.clone(),
            notification_type: self.notification_type,
            source_reminder_id: match &self.source_reminder_id {
                Some(s) => Some(s.clone()),
                None => None,
            },
            created_at: self.created_at,
            read_at: self.read_at,
        }
    }
}

/// Notification errors.
#[derive(Debug, Clone, PartialEq, Eq)]
pub enum NotificationError {
    NotFound(String),
    Internal(String),
}

/// Something that emits notifications.
pub trait NotificationSink {
    fn emit(&mut self, notification: &Notification) -> Result<(), NotificationError>;
}

/// A sink that collects what it emits, for tests.
#[derive(Debug)]
pub struct FakeNotificationSink {
    emitted: Vec<Notification>,
}

impl View for FakeNotificationSink {
    type V = Seq<Notification>;

    closed spec fn view(&self) -> Seq<Notification> {
        self.emitted@
    }
}

impl FakeNotificationSink {
    pub fn new() -> (r: Self)
        ensures
            r@.len() == 0,
    {
        FakeNotificationSink { emitted: Vec::new() }
    }

    /// The notifications emitted, in order.
    pub fn emitted(&self) -> (r: &[Notification])
        ensures
            r@ == self@,
    {
        self.emitted.as_slice()
    }

    /// Number of notifications emitted.
    pub fn count(&self) -> (r: usize)
        ensures
            r == self@.len(),
    {
        self.emitted.len()
    }
}

impl Default for FakeNotificationSink {
    fn default() -> (r: Self)
        ensures
            r@.len() == 0,
    {
        Self::new()
    }
}

impl NotificationSink for FakeNotificationSink {
    fn emit(&mut self, notification: &Notification) -> (r: Result<(), NotificationError>)
        ensures
            r is Ok,
            final(self)@ == old(self)@.push(*notification),
    {
        self.emitted.push(notification.duplicate());
        Ok(())
    }
}

/// `s` with the notification of id `id` marked read at `now`.
pub open spec fn marked_read(s: Seq<Notification>, id: Seq<char>, now: i64) -> Seq<Notification> {
    s.map_values(|m: Notification| if m.id@ == id { Notification { read_at: Some(now), ..m } } else { m })
}

/// Whether some notification in `s` has the id `id`.
pub open spec fn has_notification(s: Seq<Notification>, id: Seq<char>) -> bool {
    exists|i: int| 0 <= i < s.len() && (#[trigger] s[i]).id@ == id
}

/// No two notifications in `s` share an id.
pub open spec fn unique_notification_ids(s: Seq<Notification>) -> bool {
    forall|i: int, j: int|
        0 <= i < s.len() && 0 <= j < s.len() && i != j ==> (#[trigger] s[i]).id@ != (#[trigger] s[j]).id@
}

/// `s` with the notification `n` saved: it replaces the one with its id, or
/// is added at the end.
pub open spec fn saved(s: Seq<Notification>, n: Notification) -> Seq<Notification> {
    if has_notification(s, n.id@) {
        s.map_values(|m: Notification| if m.id@ == n.id@ { n } else { m })
    } else {
        s.push(n)
    }
}

/// In-memory notification store keyed by id.
#[derive(Debug)]
pub struct MemoryNotificationStore {
    notifications: Vec<Notification>,
}

impl View for MemoryNotificationStore {
    type V = Seq<Notification>;

    closed spec fn view(&self) -> Seq<Notification> {
        self.notifications@
    }
}

impl Default for MemoryNotificationStore {
    fn default() -> (r: Self)
        ensures
            r@.len() == 0,
            r.wf(),
    {
        Self::new()
    }
}

impl MemoryNotificationStore {
    /// The invariant: ids are unique.
    pub open spec fn wf(&self) -> bool {
        unique_notification_ids(self@)
    }

    pub fn new() -> (r: Self)
        ensures
            r@.len() == 0,
            r.wf(),
    {
        MemoryNotificationStore { notifications: Vec::new() }
    }

    fn position(&self, id: &NotificationId) -> (r: Option<usize>)
        ensures
            match r {
                Some(i) => i < self@.len() && self@[i as int].id@ == id@,
                None => !has_notification(self@, id@),
            },
    {
        let mut i: usize = 0;
        while i < self.notifications.len()
            invariant
                i <= self.notifications@.len(),
                forall|k: int| 0 <= k < i ==> (#[trigger] self.notifications@[k]).id@ != id@,
            decreases self.notifications@.len() - i,
        {
            if self.notifications[i].id.same(id) {
                return Some(i);
            }
            i = i + 1;
        }
        None
    }

    /// Saves a notification, replacing the one with the same id.
    pub fn save(&mut self, notification: &Notification) -> (r: Result<(), NotificationError>)
        requires
            old(self).wf(),
        ensures
            r is Ok,
            final(self).wf(),
            final(self)@ == saved(old(self)@, *notification),
    {
        let ghost before = self.notifications@;
        match self.position(&notification.id) {
            Some(i) => {
                self.notifications.set(i, notification.duplicate());
                proof {
                    assert forall|k: int| 0 <= k < before.len() && k != i implies before[k].id@
                        != notification.id@ by {
                        assert(before[k].id@ != before[i as int].id@);
                    }
                    assert(self.notifications@ =~= before.map_values(
                        |m: Notification| if m.id@ == notification.id@ { *notification } else { m },
                    ));
                }
            },
            None => {
                self.notifications.push(notification.duplicate());
            },
        }
        Ok(())
    }

    /// The notification with the id.
    pub fn get(&self, id: &NotificationId) -> (r: Result<Notification, NotificationError>)
        requires
            self.wf(),
        ensures
            has_notification(self@, id@) ==> (r matches Ok(n) && self@.contains(n) && n.id@ == id@),
            !has_notification(self@, id@) ==> (r matches Err(NotificationError::NotFound(m)) && m@
                == id@),
    {
        match self.position(id) {
            Some(i) => Ok(self.notifications[i].duplicate()),
            None => Err(NotificationError::NotFound(id.to_string())),
        }
    }

    /// All notifications.
    pub fn list(&self) -> (r: &[Notification])
        ensures
            r@ == self@,
    {
        self.notifications.as_slice()
    }

    /// The notifications not yet read, in store order.
    pub fn list_unread(&self) -> (r: Vec<Notification>)
        ensures
            r@ == self@.filter(|n: Notification| n.read_at is None),
    {
        let mut out: Vec<Notification> = Vec::new();
        let mut i: usize = 0;
        while i < self.notifications.len()
            invariant
                i <= self@.len(),
                out@ == self@.take(i as int).filter(|n: Notification| n.read_at is None),
            decreases self@.len() - i,
        {
            proof {
                reveal(Seq::filter);
                assert(self@.take(i + 1).drop_last() == self@.take(i as int));
            }
            if self.notifications[i].read_at.is_none() {
                out.push(self.notifications[i].duplicate());
            }
            i = i + 1;
        }
        proof {
            assert(self@.take(self@.len() as int) == self@);
        }
        out
    }

    /// Marks a notification read at `now`; an unknown id is an error.
    pub fn mark_read_at(&mut self, id: &NotificationId, now: i64) -> (r: Result<(), NotificationError>)
        requires
            old(self).wf(),
        ensures
            final(self).wf(),
            has_notification(old(self)@, id@) ==> r is Ok && final(self)@ == marked_read(old(self)@, id@, now),
            !has_notification(old(self)@, id@) ==> (r matches Err(NotificationError::NotFound(m))
                && m@ == id@ && final(self)@ == old(self)@),
    {
        let ghost before = self.notifications@;
        match self.position(id) {
            Some(i) => {
                let mut n = self.notifications[i].duplicate();
                n.read_at = Some(now);
                self.notifications.set(i, n);
                proof {
                    assert forall|k: int| 0 <= k < before.len() && k != i implies before[k].id@ != id@ by {
                        assert(before[k].id@ != before[i as int].id@);
                    }
                    assert(self.notifications@ =~= before.map_values(
                        |m: Notification| if m.id@ == id@ { Notification { read_at: Some(now), ..m } } else { m },
                    ));
                    assert forall|a: int, b: int|
                        0 <= a < self@.len() && 0 <= b < self@.len() && a != b implies (#[trigger] self@[a]).id@
                            != (#[trigger] self@[b]).id@ by {
                        assert(self@[a].id@ == before[a].id@);
                        assert(self@[b].id@ == before[b].id@);
                    }
                }
                Ok(())
            },
            None => Err(NotificationError::NotFound(id.to_string())),
        }
    }

    /// Marks a notification read now; see `mark_read_at`.
    pub fn mark_read(&mut self, id: &NotificationId) -> (r: Result<(), NotificationError>)
        requires
            old(self).wf(),
        ensures
            final(self).wf(),
            has_notification(old(self)@, id@) ==> r is Ok && exists|now: i64|
                final(self)@ == #[trigger] marked_read(old(self)@, id@, now),
            !has_notification(old(self)@, id@) ==> (r matches Err(NotificationError::NotFound(m))
                && m@ == id@ && final(self)@ == old(self)@),
    {
        let now = now_unix_seconds();
        self.mark_read_at(id, now)
    }
}

/// Configuration for macOS notifications.
#[derive(Debug, Clone)]
pub struct MacOsNotificationConfig {
    pub app_name: String,
    pub sound: Option<String>,
}

impl Default for MacOsNotificationConfig {
    fn default() -> (r: Self)
        ensures
            r.app_name@ == "AgentOS"@,
            r.sound matches Some(s) && s@ == "default"@,
    {
        MacOsNotificationConfig { app_name: owned("AgentOS"), sound: Some(owned("default")) }
    }
}

/// A mock macOS sink that records what it emits without sending it.
#[derive(Debug)]
pub struct MacOsMockNotificationSink {
    config: MacOsNotificationConfig,
    emitted: Vec<Notification>,
}

impl View for MacOsMockNotificationSink {
    type V = Seq<Notification>;

    closed spec fn view(&self) -> Seq<Notification> {
        self.emitted@
    }
}

impl MacOsMockNotificationSink {
    pub fn new() -> (r: Self)
        ensures
            r@.len() == 0,
            r.config_spec().app_name@ == "AgentOS"@,
    {
        MacOsMockNotificationSink { config: MacOsNotificationConfig::default(), emitted: Vec::new() }
    }

    pub fn with_config(config: MacOsNotificationConfig) -> (r: Self)
        ensures
            r@.len() == 0,
            r.config_spec() == config,
    {
        MacOsMockNotificationSink { config, emitted: Vec::new() }
    }

    /// The configuration.
    pub closed spec fn config_spec(&self) -> MacOsNotificationConfig {
        self.config
    }

    /// All recorded notifications, in order.
    pub fn all(&self) -> (r: &[Notification])
        ensures
            r@ == self@,
    {
        self.emitted.as_slice()
    }

    /// The last recorded notification.
    pub fn last(&self) -> (r: Option<&Notification>)
        ensures
            self@.len() == 0 ==> r is None,
            self@.len() > 0 ==> r == Some(&self@.last()),
    {
        if self.emitted.len() == 0 {
            None
        } else {
            Some(&self.emitted[self.emitted.len() - 1])
        }
    }

    /// Number of recorded notifications.
    pub fn count(&self) -> (r: usize)
        ensures
            r == self@.len(),
    {
        self.emitted.len()
    }

    /// Forgets every recorded notification.
    pub fn clear(&mut self)
        ensures
            final(self)@.len() == 0,
            final(self).config_spec() == old(self).config_spec(),
    {
        self.emitted.clear();
    }

    pub fn config(&self) -> (r: &MacOsNotificationConfig)
        ensures
            *r == self.config_spec(),
    {
        &self.config
    }
}

impl Default for MacOsMockNotificationSink {
    fn default() -> (r: Self)
        ensures
            r@.len() == 0,
    {
        Self::new()
    }
}

impl NotificationSink for MacOsMockNotificationSink {
    fn emit(&mut self, notification: &Notification) -> (r: Result<(), NotificationError>)
        ensures
            r is Ok,
            final(self)@ == old(self)@.push(*notification),
            final(self).config_spec() == old(self).config_spec(),
    {
        self.emitted.push(notification.duplicate());
        Ok(())
    }
}

/// The macOS notification sink: it writes `[app] title: body` lines.
#[derive(Debug, Clone)]
pub struct MacOsNotificationSink {
    config: MacOsNotificationConfig,
}

/// The line the macOS sink writes for a notification.
pub open spec fn notification_line(app: Seq<char>, n: Notification) -> Seq<char> {
    "["@ + app + "] "@ + n.title@ + ": "@ + n.body@
}

impl MacOsNotificationSink {
    pub fn new(config: MacOsNotificationConfig) -> (r: Self)
        ensures
            r.config_spec() == config,
    {
        MacOsNotificationSink { config }
    }

    /// The configuration.
    pub closed spec fn config_spec(&self) -> MacOsNotificationConfig {
        self.config
    }

    /// The line written for a notification.
    pub fn line(&self, notification: &Notification) -> (r: String)
        ensures
            r@ == notification_line(self.config_spec().app_name@, *notification),
    {
        let mut s = owned("[");
        push_str(&mut s, self.config.app_name.as_str());
        push_str(&mut s, "] ");
        push_str(&mut s, notification.title.as_str());
        push_str(&mut s, ": ");
        push_str(&mut s, notification.body.as_str());
        s
    }
}

/// Saving a notification and then reading its id gives it back; other
/// notifications stay as they were.
pub proof fn law_save_then_get(s: Seq<Notification>, n: Notification, other: Seq<char>)
    requires
        unique_notification_ids(s),
    ensures
        unique_notification_ids(saved(s, n)),
        has_notification(saved(s, n), n.id@),
        forall|i: int| 0 <= i < saved(s, n).len() && (#[trigger] saved(s, n)[i]).id@ == n.id@ ==> saved(s, n)[i] == n,
        other != n.id@ ==> (has_notification(saved(s, n), other) == has_notification(s, other)),
{
    let t = saved(s, n);
    if has_notification(s, n.id@) {
        let k = choose|k: int| 0 <= k < s.len() && (#[trigger] s[k]).id@ == n.id@;
        assert(t[k] == n);
        assert forall|a: int, b: int| 0 <= a < t.len() && 0 <= b < t.len() && a != b implies (#[trigger] t[a]).id@
            != (#[trigger] t[b]).id@ by {
            assert(s[a].id@ != s[b].id@);
        }
        if has_notification(s, other) && other != n.id@ {
            let j = choose|j: int| 0 <= j < s.len() && (#[trigger] s[j]).id@ == other;
            assert(t[j] == s[j]);
        }
        if has_notification(t, other) && other != n.id@ {
            let j = choose|j: int| 0 <= j < t.len() && (#[trigger] t[j]).id@ == other;
            assert(t[j] == s[j]);
        }
    } else {
        assert(t[s.len() as int] == n);
        assert forall|a: int, b: int| 0 <= a < t.len() && 0 <= b < t.len() && a != b implies (#[trigger] t[a]).id@
            != (#[trigger] t[b]).id@ by {
            if a < s.len() && b < s.len() {
                assert(t[a] == s[a]);
                assert(t[b] == s[b]);
            } else if a < s.len() {
                assert(t[a] == s[a]);
            } else if b < s.len() {
                assert(t[b] == s[b]);
            }
        }
        assert forall|i: int| 0 <= i < t.len() && (#[trigger] t[i]).id@ == n.id@ implies t[i] == n by {
            if i < s.len() {
                assert(t[i] == s[i]);
            }
        }
        if has_notification(s, other) {
            let j = choose|j: int| 0 <= j < s.len() && (#[trigger] s[j]).id@ == other;
            assert(t[j] == s[j]);
        }
        if has_notification(t, other) && other != n.id@ {
            let j = choose|j: int| 0 <= j < t.len() && (#[trigger] t[j]).id@ == other;
            assert(j < s.len());
            assert(t[j] == s[j]);
        }
    }
}

} // verus!
