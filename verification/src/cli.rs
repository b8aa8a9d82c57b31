//! The command-line surface, as plain data: three commands — crawl to
//! checkpoint files, crawl straight to storage, load checkpoint files
//! into storage. Page numbers are 1-based and inclusive; parsing the
//! actual argument strings happens outside the library, which hands
//! these values in.

use vstd::prelude::*;

verus! {

/// Arguments of a crawl that checkpoints each page to a file.
#[derive(Debug, Clone)]
pub struct ToFsArgs {
    /// 1-based page number the crawl starts from.
    pub start_page: u32,
    /// 1-based page number the crawl ends at, inclusive; absent means
    /// the start page alone.
    pub end_page: Option<u32>,
    /// Directory the checkpoint files go to.
    pub path: String,
}

impl ToFsArgs {
    /// Page numbers are 1-based.
    pub open spec fn wf(&self) -> bool {
        1 <= self.start_page && match self.end_page {
            Some(e) => 1 <= e,
            None => true,
        }
    }
}

/// Arguments of a crawl that writes straight to storage backends.
#[derive(Debug, Clone)]
pub struct ToDbArgs {
    /// One connection string per backend to write to.
    pub cs: Vec<String>,
}

/// Arguments of a load from checkpoint files into storage backends.
#[derive(Debug, Clone)]
pub struct FromFsArgs {
    /// Directory the checkpoint files are read from.
    pub path: String,
    /// 1-based page number the load starts from.
    pub start_page: u32,
    /// 1-based page number the load ends at, inclusive; absent means
    /// the start page alone.
    pub end_page: Option<u32>,
}

impl FromFsArgs {
    /// Page numbers are 1-based.
    pub open spec fn wf(&self) -> bool {
        1 <= self.start_page && match self.end_page {
            Some(e) => 1 <= e,
            None => true,
        }
    }
}

/// One invocation's command.
#[derive(Debug, Clone)]
pub enum Commands {
    ScrapToFs(ToFsArgs),
    ScrapToDb(ToDbArgs),
    LoadFromFs(FromFsArgs),
}

/// The parsed command line.
#[derive(Debug, Clone)]
pub struct Cli {
    pub command: Commands,
}

} // verus!
