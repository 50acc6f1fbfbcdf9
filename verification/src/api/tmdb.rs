//! Films and series.

use vstd::prelude::*;

verus! {

/// A genre of a film or a series.
#[derive(Debug, Clone)]
pub struct Genre {
    pub id: Option<u32>,
    pub name: Option<String>,
}

/// A season of a series.
#[derive(Debug, Clone)]
pub struct Season {
    pub episode_count: Option<u32>,
    pub id: Option<u32>,
    pub name: Option<String>,
    pub poster_path: Option<String>,
    pub season_number: Option<u32>,
}

/// The titles that a film or a series goes by elsewhere.
#[derive(Debug, Clone)]
pub struct AltTitles {
    pub id: Option<u32>,
    pub results: Vec<Title>,
}

/// A title, and the country that uses it.
#[derive(Debug, Clone)]
pub struct Title {
    pub title: Option<String>,
    pub iso_3166_1: Option<String>,
}

/// The ids of a film or a series in other catalogues.
#[derive(Debug, Clone)]
pub struct ExternalIDs {
    pub id: Option<u32>,
    pub imdb_id: Option<String>,
    pub tvdb_id: Option<u32>,
    pub wikidata_id: Option<String>,
}

/// One page of a list of results.
#[derive(Debug, Clone)]
pub struct ListResults<T> {
    pub page: Option<u32>,
    pub total_results: Option<u32>,
    pub total_pages: Option<u32>,
    pub results: Vec<T>,
}

/// The id of a film or of a series.
#[derive(Debug, Clone, Copy, PartialEq, Eq, Structural)]
pub enum Id {
    Movie { id: u32 },
    Tv { id: u32 },
}

impl Id {
    /// The name of the kind in the addresses of the service.
    pub open spec fn kind_name(self) -> Seq<char> {
        match self {
            Id::Movie { .. } => "movie"@,
            Id::Tv { .. } => "tv"@,
        }
    }

    /// The number of the id.
    pub open spec fn number(self) -> u32 {
        match self {
            Id::Movie { id } => id,
            Id::Tv { id } => id,
        }
    }

    /// The name of the kind in the addresses of the service.
    pub fn id_type(&self) -> (t: &'static str)
        ensures
            t@ == self.kind_name(),
    {
        match self {
            Id::Movie { .. } => "movie",
            Id::Tv { .. } => "tv",
        }
    }

    /// The number of the id.
    pub fn id(&self) -> (n: u32)
        ensures
            n == self.number(),
    {
        match self {
            Id::Movie { id } => *id,
            Id::Tv { id } => *id,
        }
    }
}

/// An id from another catalogue.
#[derive(Debug, Clone)]
pub enum ExternalId {
    Tvdb(String),
    Imbd(String),
}

impl ExternalId {
    /// The name of the catalogue in the addresses of the service.
    pub open spec fn kind_name(self) -> Seq<char> {
        match self {
            ExternalId::Tvdb(_) => "tvdb_id"@,
            ExternalId::Imbd(_) => "imdb_id"@,
        }
    }

    /// The text of the id.
    pub open spec fn text(self) -> Seq<char> {
        match self {
            ExternalId::Tvdb(id) => id@,
            ExternalId::Imbd(id) => id@,
        }
    }

    /// The name of the catalogue in the addresses of the service.
    pub fn id_type(&self) -> (t: &'static str)
        ensures
            t@ == self.kind_name(),
    {
        match self {
            ExternalId::Tvdb(_) => "tvdb_id",
            ExternalId::Imbd(_) => "imdb_id",
        }
    }

    /// The text of the id.
    pub fn id(&self) -> (t: &str)
        ensures
            t@ == self.text(),
    {
        match self {
            ExternalId::Tvdb(id) => id.as_str(),
            ExternalId::Imbd(id) => id.as_str(),
        }
    }
}

/// Where the service keeps its images.
#[derive(Debug, Clone)]
pub struct ImageConfig {
    pub base_url: Option<String>,
    pub secure_base_url: Option<String>,
}

/// The configuration that the service announces.
#[derive(Debug, Clone)]
pub struct Config {
    pub images: Option<ImageConfig>,
}

impl Config {
    /// The address of the images over a secure connection, as announced.
    pub open spec fn announced(self) -> Option<Seq<char>> {
        match self.images {
            Some(images) => match images.secure_base_url {
                Some(url) => Some(url@),
                None => None,
            },
            None => None,
        }
    }

    /// The address of the images over a secure connection: the announced
    /// one, or the usual one where none was announced.
    pub fn get_secure_base_url(&self) -> (url: &str)
        ensures
            url@ == match self.announced() {
                Some(u) => u,
                None => "https://image.tmdb.org/t/p/"@,
            },
    {
        match &self.images {
            Some(images) => match &images.secure_base_url {
                Some(url) => url.as_str(),
                None => "https://image.tmdb.org/t/p/",
            },
            None => "https://image.tmdb.org/t/p/",
        }
    }
}

impl Default for Config {
    fn default() -> (c: Config)
        ensures
            c.announced() == Some("https://image.tmdb.org/t/p/"@),
            c.images is Some,
            c.images->Some_0.base_url is Some,
            c.images->Some_0.base_url->Some_0@ == "http://image.tmdb.org/t/p/"@,
    {
        Config {
            images: Some(
                ImageConfig {
                    base_url: Some("http://image.tmdb.org/t/p/".to_owned()),
                    secure_base_url: Some("https://image.tmdb.org/t/p/".to_owned()),
                },
            ),
        }
    }
}

/// What the film database knows of a title.
#[derive(Debug, Clone)]
pub struct ImdbSearchResult {
    pub title: Option<String>,
    pub imdb_rating: Option<String>,
    pub imdb_id: Option<String>,
    pub imdb_votes: Option<String>,
    pub ttype: Option<String>,
    pub total_seasons: Option<String>,
    pub poster: Option<String>,
}

} // verus!
