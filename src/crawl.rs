//! The run parameters and the decisions of the page loop: which page to
//! fetch next, and what a failed fetch means.
use vstd::prelude::*;
use crate::error::ScrapeError;
use crate::number::{decimal_text, u32_text};

verus! {

/// The first page of each listing.
pub const DEFAULT_STARTING_PAGE: u32 = 1;
/// The end of the page range, itself not fetched.
pub const DEFAULT_MAX_PAGE: u32 = 101;
/// A page above this number that cannot be fetched is taken as the end of
/// its listing. The site shows no last page, so this is a guess that may
/// drift with the site.
pub const DEFAULT_END_THRESHOLD: u32 = 82;

/// The parameters of one run; nothing changes them once it has begun.
pub struct Config {
    pub output_file_path: String,
    /// Listing addresses; a page number is appended to each.
    pub base_urls: Vec<String>,
    /// The first page fetched of each listing.
    pub starting_page: u32,
    /// The end of the page range: pages `starting_page .. max_page` are fetched.
    pub max_page: u32,
    /// A failed fetch of a page above this number ends its listing.
    pub end_threshold: u32,
}

/// The listing ordered by frequency.
pub open spec fn frequency_listing() -> Seq<char> {
    "http://hanzidb.org/character-list/by-frequency?page="@
}

/// The listing ordered by the general standard.
pub open spec fn standard_listing() -> Seq<char> {
    "http://hanzidb.org/character-list/general-standard?page="@
}

impl Config {
    /// The parameters given by a command line: the program name and exactly
    /// one output path. Both listings are crawled over the default pages.
    pub fn new(args: &Vec<String>) -> (r: Result<Config, ScrapeError>)
        ensures
            args@.len() != 2 <==> r == Err::<Config, ScrapeError>(ScrapeError::WrongArgumentCount),
            args@.len() == 2 <==> r is Ok,
            r is Ok ==> ({
                let c = r->Ok_0;
                &&& c.output_file_path@ == args@[1]@
                &&& c.base_urls@.map_values(|u: String| u@) == seq![
                    frequency_listing(),
                    standard_listing(),
                ]
                &&& c.starting_page == DEFAULT_STARTING_PAGE
                &&& c.max_page == DEFAULT_MAX_PAGE
                &&& c.end_threshold == DEFAULT_END_THRESHOLD
            }),
    {
        if args.len() != 2 {
            return Err(ScrapeError::WrongArgumentCount);
        }
        let mut base_urls: Vec<String> = Vec::new();
        base_urls.push(String::from_str("http://hanzidb.org/character-list/by-frequency?page="));
        base_urls.push(String::from_str("http://hanzidb.org/character-list/general-standard?page="));
        assert(base_urls@.map_values(|u: String| u@) =~= seq![
            frequency_listing(),
            standard_listing(),
        ]);
        Ok(
            Config {
                output_file_path: args[1].clone(),
                base_urls,
                starting_page: DEFAULT_STARTING_PAGE,
                max_page: DEFAULT_MAX_PAGE,
                end_threshold: DEFAULT_END_THRESHOLD,
            },
        )
    }

    /// Parameters for the given listings and page range, with the default
    /// end-of-pages threshold.
    pub fn with_sources(
        output_file_path: String,
        base_urls: Vec<String>,
        starting_page: u32,
        max_page: u32,
    ) -> (r: Config)
        ensures
            r.output_file_path == output_file_path,
            r.base_urls == base_urls,
            r.starting_page == starting_page,
            r.max_page == max_page,
            r.end_threshold == DEFAULT_END_THRESHOLD,
    {
        Config {
            output_file_path,
            base_urls,
            starting_page,
            max_page,
            end_threshold: DEFAULT_END_THRESHOLD,
        }
    }

    /// The same parameters with another end-of-pages threshold.
    pub fn with_end_threshold(self, end_threshold: u32) -> (r: Config)
        ensures
            r.output_file_path == self.output_file_path,
            r.base_urls == self.base_urls,
            r.starting_page == self.starting_page,
            r.max_page == self.max_page,
            r.end_threshold == end_threshold,
    {
        Config { end_threshold, ..self }
    }
}

/// Where a crawl stands: the listing and the page to fetch next. A listing
/// index past the last listing means that the crawl is done.
pub struct Crawl {
    config: Config,
    listing: usize,
    page: u32,
}

/// What the page loop does next.
pub enum Step {
    /// Fetch this address, which is page `page` of the current listing.
    Fetch { url: String, page: u32 },
    /// Every listing is done.
    Done,
}

/// The position at which listing `listing` starts: its first page, or the
/// end of the crawl where no listing is left or the page range is empty.
pub open spec fn start_of(c: Config, listing: nat) -> (nat, nat) {
    if listing < c.base_urls@.len() && c.starting_page < c.max_page {
        (listing, c.starting_page as nat)
    } else {
        (c.base_urls@.len(), c.starting_page as nat)
    }
}

/// The position after page `page` of listing `listing` was read.
pub open spec fn after_page(c: Config, listing: nat, page: nat) -> (nat, nat) {
    if page + 1 < c.max_page {
        (listing, page + 1)
    } else {
        start_of(c, listing + 1)
    }
}

/// The address of a page: the listing's address followed by the page number.
pub open spec fn page_url(base: Seq<char>, page: u32) -> Seq<char> {
    base + decimal_text(page as nat)
}

impl Crawl {
    /// The configuration that the crawl runs under.
    pub closed spec fn config(&self) -> Config {
        self.config
    }

    /// The current position: listing index and page.
    pub closed spec fn position(&self) -> (nat, nat) {
        (self.listing as nat, self.page as nat)
    }

    /// Whether every listing is done.
    pub open spec fn is_done(&self) -> bool {
        self.position().0 >= self.config().base_urls@.len()
    }

    /// The position is a page within the range of a listing, or the end.
    pub closed spec fn wf(&self) -> bool {
        &&& self.listing <= self.config.base_urls@.len()
        &&& self.listing < self.config.base_urls@.len() ==> self.config.starting_page <= self.page
            < self.config.max_page
    }

    /// A crawl at the first page of the first listing.
    pub fn new(config: Config) -> (r: Crawl)
        ensures
            r.wf(),
            r.config() == config,
            r.position() == start_of(config, 0),
    {
        if config.base_urls.len() > 0 && config.starting_page < config.max_page {
            let page = config.starting_page;
            Crawl { config, listing: 0, page }
        } else {
            let listing = config.base_urls.len();
            let page = config.starting_page;
            Crawl { config, listing, page }
        }
    }

    /// The move into the listing after `listing`.
    fn to_listing(&mut self, listing: usize)
        requires
            listing <= old(self).config.base_urls@.len(),
        ensures
            final(self).wf(),
            final(self).config == old(self).config,
            final(self).position() == start_of(old(self).config, listing as nat),
    {
        if listing < self.config.base_urls.len() && self.config.starting_page < self.config.max_page {
            self.listing = listing;
        } else {
            self.listing = self.config.base_urls.len();
        }
        self.page = self.config.starting_page;
    }

    /// The page to fetch next, if any.
    pub fn next_step(&self) -> (r: Step)
        requires
            self.wf(),
        ensures
            self.is_done() <==> r is Done,
            r matches Step::Fetch { url, page } ==> page == self.position().1 && url@ == page_url(
                self.config().base_urls@[self.position().0 as int]@,
                page,
            ),
    {
        if self.listing >= self.config.base_urls.len() {
            return Step::Done;
        }
        let mut url = self.config.base_urls[self.listing].clone();
        url.append(u32_text(self.page).as_str());
        Step::Fetch { url, page: self.page }
    }

    /// The current page was fetched and read: move to the next page, or to
    /// the next listing after the last page.
    pub fn page_read(&mut self)
        requires
            old(self).wf(),
            !old(self).is_done(),
        ensures
            final(self).wf(),
            final(self).config() == old(self).config(),
            final(self).position() == after_page(
                old(self).config(),
                old(self).position().0,
                old(self).position().1,
            ),
    {
        if self.page + 1 < self.config.max_page {
            self.page = self.page + 1;
        } else {
            let n = self.config.base_urls.len();
            assert(self.listing < n);
            let next = self.listing + 1;
            self.to_listing(next);
        }
    }

    /// The current page could not be fetched. Above the end threshold this
    /// ends the current listing and the crawl goes on with the next one;
    /// otherwise it is fatal and the position stays.
    pub fn fetch_failed(&mut self) -> (r: Result<(), ScrapeError>)
        requires
            old(self).wf(),
            !old(self).is_done(),
        ensures
            final(self).wf(),
            final(self).config() == old(self).config(),
            old(self).position().1 > old(self).config().end_threshold ==> r is Ok
                && final(self).position() == start_of(
                old(self).config(),
                old(self).position().0 + 1,
            ),
            old(self).position().1 <= old(self).config().end_threshold ==> r == Err::<
                (),
                ScrapeError,
            >(ScrapeError::FetchFailed) && final(self).position() == old(self).position(),
    {
        if self.page > self.config.end_threshold {
            let n = self.config.base_urls.len();
            assert(self.listing < n);
            let next = self.listing + 1;
            self.to_listing(next);
            Ok(())
        } else {
            Err(ScrapeError::FetchFailed)
        }
    }
}

} // verus!
