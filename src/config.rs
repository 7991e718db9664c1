//! The configuration that the library consumes.
use crate::calendar::EventSourceKind;
use crate::event::Event;
use vstd::prelude::*;

verus! {

/// The sync period, in seconds, where the configuration gives none.
pub const DEFAULT_SYNC_PERIOD_SECONDS: u64 = 60;

/// A link configuration.
#[derive(Debug)]
pub struct Link {
    /// The link title.
    pub title: String,
    /// The URL that it points to.
    pub href: String,
    /// Whether the doors on the homepage should link here. Where several
    /// links say so, the first one wins.
    pub doors: bool,
    /// Whether the generated `a` tag opens a new tab.
    pub blank: bool,
}

/// Calendar configuration.
#[derive(Debug)]
pub struct CalendarConfig {
    /// Source for calendar events.
    pub event_source: EventSourceKind,
    /// The events of the static source.
    pub events: Vec<Event>,
    /// Period for calendar synchronization, in seconds.
    pub sync_period_seconds: Option<u64>,
}

impl CalendarConfig {
    /// The configured sync period in seconds, or the default of a minute.
    pub fn sync_period(&self) -> (r: u64)
        ensures
            r == match self.sync_period_seconds {
                Some(s) => s,
                None => DEFAULT_SYNC_PERIOD_SECONDS,
            },
    {
        match self.sync_period_seconds {
            Some(s) => s,
            None => DEFAULT_SYNC_PERIOD_SECONDS,
        }
    }
}

/// Website specific configuration.
#[derive(Debug)]
pub struct SiteConfig {
    /// The site title.
    pub title: String,
    /// The tagline displayed next to the site title.
    pub tagline: String,
    /// Optional site description, for the description meta tag.
    pub description: Option<String>,
    /// Optional canonical URL of the site, for the canonical meta tag.
    pub canonical_url: Option<String>,
    /// Links to display in the site footer.
    pub links: Vec<Link>,
}

impl SiteConfig {
    /// The position of the first link that the doors on the homepage lead
    /// to, if any.
    pub fn doors_link(&self) -> (r: Option<usize>)
        ensures
            r matches Some(i) ==> i < self.links@.len() && self.links@[i as int].doors && forall|
                j: int,
            | 0 <= j < i ==> !(#[trigger] self.links@[j]).doors,
            r is None ==> forall|j: int|
                0 <= j < self.links@.len() ==> !(#[trigger] self.links@[j]).doors,
    {
        let mut i: usize = 0;
        while i < self.links.len()
            invariant
                i <= self.links@.len(),
                forall|j: int| 0 <= j < i ==> !(#[trigger] self.links@[j]).doors,
            decreases self.links@.len() - i,
        {
            if self.links[i].doors {
                return Some(i);
            }
            i = i + 1;
        }
        None
    }
}

/// Metrics configuration.
#[derive(Debug)]
pub struct MetricsConfig {
    /// Whether the metrics endpoint is served.
    pub enabled: bool,
    /// The bearer token that the metrics endpoint asks for; `None` leaves it
    /// open.
    pub token: Option<String>,
}

/// How a request for the metrics endpoint is answered.
#[derive(Debug, Clone, Copy, PartialEq, Eq, Structural)]
pub enum MetricsAccess {
    /// Serve the metrics.
    Granted,
    /// Metrics are disabled: answer as if the endpoint did not exist.
    NotFound,
    /// A token was presented and is not the configured one.
    Unauthorized,
    /// A token is required and none was presented.
    MissingToken,
}

impl MetricsConfig {
    /// Decides a request for the metrics endpoint that presented the bearer
    /// token `presented`, if any.
    pub fn authorize(&self, presented: &Option<String>) -> (r: MetricsAccess)
        ensures
            r == (if !self.enabled {
                MetricsAccess::NotFound
            } else {
                match (self.token, *presented) {
                    (None, _) => MetricsAccess::Granted,
                    (Some(t), None) => MetricsAccess::MissingToken,
                    (Some(t), Some(p)) => if t@ == p@ {
                        MetricsAccess::Granted
                    } else {
                        MetricsAccess::Unauthorized
                    },
                }
            }),
    {
        if !self.enabled {
            return MetricsAccess::NotFound;
        }
        match &self.token {
            None => MetricsAccess::Granted,
            Some(t) => match presented {
                None => MetricsAccess::MissingToken,
                Some(p) => if *t == *p {
                    MetricsAccess::Granted
                } else {
                    MetricsAccess::Unauthorized
                },
            },
        }
    }
}

} // verus!
