use vstd::prelude::*;

verus! {

/// Name of the local file that holds the stored schedule of `year`.
pub open spec fn schedule_file_name_spec(year: Seq<char>) -> Seq<char> {
    "schedule-"@ + year + ".json"@
}

/// Address of the remote season document for `year`.
pub open spec fn schedule_api_url_spec(year: Seq<char>) -> Seq<char> {
    "https://ergast.com/api/f1/"@ + year + "/races.json"@
}

pub fn schedule_file_name(year: &str) -> (r: String)
    ensures
        r@ == schedule_file_name_spec(year@),
{
    let mut r = String::from_str("schedule-");
    r.append(year);
    r.append(".json");
    r
}

pub fn schedule_api_url(year: &str) -> (r: String)
    ensures
        r@ == schedule_api_url_spec(year@),
{
    let mut r = String::from_str("https://ergast.com/api/f1/");
    r.append(year);
    r.append("/races.json");
    r
}

/// Where the program keeps its files: the config, the recipient list, and
/// the prefix of each year's schedule file.
pub struct StorePaths {
    pub config_path: String,
    pub recipients_path: String,
    pub schedule_prefix: String,
}

impl StorePaths {
    /// The files in the working directory.
    pub fn standard() -> (r: StorePaths)
        ensures
            r.config_path@ == "config.json"@,
            r.recipients_path@ == "recipients.json"@,
            r.schedule_prefix@ == "schedule-"@,
    {
        StorePaths {
            config_path: String::from_str("config.json"),
            recipients_path: String::from_str("recipients.json"),
            schedule_prefix: String::from_str("schedule-"),
        }
    }

    /// The schedule file of `year`.
    pub fn schedule_file(&self, year: &str) -> (r: String)
        ensures
            r@ == self.schedule_prefix@ + year@ + ".json"@,
    {
        let mut r = self.schedule_prefix.clone();
        r.append(year);
        r.append(".json");
        r
    }
}

} // verus!
