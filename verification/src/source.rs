//! The sources of observations.
use vstd::prelude::*;
use crate::text::same_text;

verus! {

/// Where observations come from.
#[derive(Debug, Clone, Copy, PartialEq, Eq, Hash, Structural)]
pub enum DataSource {
    IemAsosOneMinute,
    NceiAsosFiveMinute,
    NwsApi,
    Ghcnh,
}

/// A source with what is said of it.
#[derive(Debug, Clone, Copy)]
pub struct SourceDescriptor {
    pub source: DataSource,
    pub slug: &'static str,
    pub summary: &'static str,
    pub cadence: &'static str,
    pub scope: &'static str,
}

/// The short name of a source, in file names and rows.
pub open spec fn slug_of(source: DataSource) -> Seq<char> {
    match source {
        DataSource::IemAsosOneMinute => "iem-asos-1min"@,
        DataSource::NceiAsosFiveMinute => "ncei-asos-5min"@,
        DataSource::NwsApi => "nws-api"@,
        DataSource::Ghcnh => "ghcnh"@,
    }
}

pub open spec fn summary_of(source: DataSource) -> Seq<char> {
    match source {
        DataSource::IemAsosOneMinute =>
            "Processed ASOS observations with convenient station history access."@,
        DataSource::NceiAsosFiveMinute =>
            "Official NOAA ASOS five-minute archive for authoritative U.S. station history."@,
        DataSource::NwsApi =>
            "Live and recent National Weather Service observations for current-day state."@,
        DataSource::Ghcnh =>
            "Hourly global station archive fallback for broad geographic coverage."@,
    }
}

pub open spec fn cadence_of(source: DataSource) -> Seq<char> {
    match source {
        DataSource::IemAsosOneMinute => "1 minute"@,
        DataSource::NceiAsosFiveMinute => "5 minutes"@,
        DataSource::NwsApi => "live/recent"@,
        DataSource::Ghcnh => "hourly"@,
    }
}

pub open spec fn scope_of(source: DataSource) -> Seq<char> {
    match source {
        DataSource::IemAsosOneMinute => "U.S. ASOS/METAR"@,
        DataSource::NceiAsosFiveMinute => "U.S. ASOS"@,
        DataSource::NwsApi => "U.S. NWS stations"@,
        DataSource::Ghcnh => "global"@,
    }
}

/// The source with this short name.
pub open spec fn source_with_slug(slug: Seq<char>) -> Option<DataSource> {
    if slug == slug_of(DataSource::IemAsosOneMinute) {
        Some(DataSource::IemAsosOneMinute)
    } else if slug == slug_of(DataSource::NceiAsosFiveMinute) {
        Some(DataSource::NceiAsosFiveMinute)
    } else if slug == slug_of(DataSource::NwsApi) {
        Some(DataSource::NwsApi)
    } else if slug == slug_of(DataSource::Ghcnh) {
        Some(DataSource::Ghcnh)
    } else {
        None
    }
}

/// The short names of two sources differ in length.
pub proof fn lemma_slug_lens()
    ensures
        slug_of(DataSource::IemAsosOneMinute).len() == 13,
        slug_of(DataSource::NceiAsosFiveMinute).len() == 14,
        slug_of(DataSource::NwsApi).len() == 7,
        slug_of(DataSource::Ghcnh).len() == 5,
{
    reveal_strlit("iem-asos-1min");
    reveal_strlit("ncei-asos-5min");
    reveal_strlit("nws-api");
    reveal_strlit("ghcnh");
}

/// The short name of a source names that source and no other.
pub proof fn law_slug_reads_back(source: DataSource)
    ensures
        source_with_slug(slug_of(source)) == Some(source),
        forall|other: DataSource| #[trigger] slug_of(other) == slug_of(source) ==> other == source,
{
    lemma_slug_lens();
}

impl DataSource {
    pub fn slug(self) -> (r: &'static str)
        ensures
            r@ == slug_of(self),
    {
        match self {
            Self::IemAsosOneMinute => "iem-asos-1min",
            Self::NceiAsosFiveMinute => "ncei-asos-5min",
            Self::NwsApi => "nws-api",
            Self::Ghcnh => "ghcnh",
        }
    }

    /// The source with this short name, if there is one.
    pub fn from_slug(slug: &str) -> (r: Option<DataSource>)
        ensures
            r == source_with_slug(slug@),
    {
        if same_text(slug, "iem-asos-1min") {
            Some(Self::IemAsosOneMinute)
        } else if same_text(slug, "ncei-asos-5min") {
            Some(Self::NceiAsosFiveMinute)
        } else if same_text(slug, "nws-api") {
            Some(Self::NwsApi)
        } else if same_text(slug, "ghcnh") {
            Some(Self::Ghcnh)
        } else {
            None
        }
    }

    pub fn summary(self) -> (r: &'static str)
        ensures
            r@ == summary_of(self),
    {
        match self {
            Self::IemAsosOneMinute =>
                "Processed ASOS observations with convenient station history access.",
            Self::NceiAsosFiveMinute =>
                "Official NOAA ASOS five-minute archive for authoritative U.S. station history.",
            Self::NwsApi =>
                "Live and recent National Weather Service observations for current-day state.",
            Self::Ghcnh => "Hourly global station archive fallback for broad geographic coverage.",
        }
    }

    pub fn cadence(self) -> (r: &'static str)
        ensures
            r@ == cadence_of(self),
    {
        match self {
            Self::IemAsosOneMinute => "1 minute",
            Self::NceiAsosFiveMinute => "5 minutes",
            Self::NwsApi => "live/recent",
            Self::Ghcnh => "hourly",
        }
    }

    pub fn scope(self) -> (r: &'static str)
        ensures
            r@ == scope_of(self),
    {
        match self {
            Self::IemAsosOneMinute => "U.S. ASOS/METAR",
            Self::NceiAsosFiveMinute => "U.S. ASOS",
            Self::NwsApi => "U.S. NWS stations",
            Self::Ghcnh => "global",
        }
    }
}

impl SourceDescriptor {
    /// The source with what is said of it.
    pub open spec fn describes(self, source: DataSource) -> bool {
        &&& self.source == source
        &&& self.slug@ == slug_of(source)
        &&& self.summary@ == summary_of(source)
        &&& self.cadence@ == cadence_of(source)
        &&& self.scope@ == scope_of(source)
    }

    pub fn from_source(source: DataSource) -> (r: Self)
        ensures
            r.describes(source),
    {
        Self {
            source,
            slug: source.slug(),
            summary: source.summary(),
            cadence: source.cadence(),
            scope: source.scope(),
        }
    }
}

/// All sources.
pub fn all_sources() -> (r: Vec<DataSource>)
    ensures
        r@ == seq![
            DataSource::IemAsosOneMinute,
            DataSource::NceiAsosFiveMinute,
            DataSource::NwsApi,
            DataSource::Ghcnh,
        ],
{
    vec![
        DataSource::IemAsosOneMinute,
        DataSource::NceiAsosFiveMinute,
        DataSource::NwsApi,
        DataSource::Ghcnh,
    ]
}

} // verus!
