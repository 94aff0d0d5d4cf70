//! AWS Lambda distribution targets: what a package declares, where its
//! archive is put together and stored, and when it is uploaded.

use vstd::prelude::*;
use vstd::string::StringExecFns;
use crate::context::{Mode, Options};
use crate::errors::{plain, Error, ErrorView};
use crate::metadata::CopyCommand;
use crate::paths::{join_path, joined};

verus! {

pub const DEFAULT_AWS_LAMBDA_S3_BUCKET_ENV_VAR_NAME: &'static str =
    "CARGO_MONOREPO_AWS_LAMBDA_S3_BUCKET";

/// What a package declares of an AWS Lambda distribution target.
#[derive(Debug, Clone)]
pub struct AwsLambdaMetadata {
    pub s3_bucket: Option<String>,
    pub region: Option<String>,
    pub s3_bucket_prefix: String,
    pub target_runtime: String,
    pub extra_files: Vec<CopyCommand>,
}

/// The target runtime of a target that declares none.
pub fn default_target_runtime() -> (runtime: String)
    ensures
        runtime@ == "x86_64-unknown-linux-musl"@,
{
    "x86_64-unknown-linux-musl".to_owned()
}

/// The error for a target without a bucket.
pub open spec fn no_bucket_error() -> ErrorView {
    ErrorView {
        explanation: Some(
            "The field s3_bucket is empty and the environment variable "@
                + DEFAULT_AWS_LAMBDA_S3_BUCKET_ENV_VAR_NAME@ + " was not set"@,
        ),
        ..plain("failed to determine AWS S3 bucket"@)
    }
}

/// The error for a store that could not say whether it holds the archive.
pub open spec fn store_check_error(source: ErrorView, s3_key: Seq<char>, s3_bucket: Seq<char>) -> ErrorView {
    ErrorView {
        description: "failed to check for AWS Lambda archive existence"@,
        explanation: Some(
            "Could not verify the existence of the AWS Lambda archive `"@ + s3_key
                + "` in the S3 bucket `"@ + s3_bucket
                + "`. Please check your credentials and permissions and make sure you have the appropriate permissions."@,
        ),
        source: Some(Box::new(source)),
        output: None,
    }
}

/// The error for a store that could not say whether it holds the archive,
/// for the reason `source`.
pub fn store_check_failed(source: Error, s3_key: &str, s3_bucket: &str) -> (error: Error)
    ensures
        error@ == store_check_error(source@, s3_key@, s3_bucket@),
{
    let mut explanation = "Could not verify the existence of the AWS Lambda archive `".to_owned();
    explanation.append(s3_key);
    explanation.append("` in the S3 bucket `");
    explanation.append(s3_bucket);
    explanation.append(
        "`. Please check your credentials and permissions and make sure you have the appropriate permissions.",
    );
    let error = Error::from_source(source).with_context(
        "failed to check for AWS Lambda archive existence",
    ).with_explanation(explanation.as_str());
    error
}

/// What is done with the archive of a target.
#[derive(Debug, Clone, Copy, PartialEq, Eq, Structural)]
pub enum Upload {
    /// The archive is stored already and is left as it is.
    UpToDate,
    /// The run is a dry run: nothing is uploaded.
    DryRun,
    /// The archive is uploaded.
    Send,
}

impl AwsLambdaMetadata {
    /// The metadata of a target that declares nothing.
    pub fn new() -> (metadata: AwsLambdaMetadata)
        ensures
            metadata.s3_bucket is None,
            metadata.region is None,
            metadata.s3_bucket_prefix@.len() == 0,
            metadata.target_runtime@ == "x86_64-unknown-linux-musl"@,
            metadata.extra_files@.len() == 0,
    {
        AwsLambdaMetadata {
            s3_bucket: None,
            region: None,
            s3_bucket_prefix: String::new(),
            target_runtime: default_target_runtime(),
            extra_files: Vec::new(),
        }
    }

    /// The bucket of the target: the one it declares, else the one that
    /// the environment names, given as `from_environment`.
    pub fn s3_bucket(&self, from_environment: Option<&str>) -> (r: Result<String, Error>)
        ensures
            match (self.s3_bucket, from_environment) {
                (Some(bucket), _) => r is Ok && r->Ok_0@ == bucket@,
                (None, Some(bucket)) => r is Ok && r->Ok_0@ == bucket@,
                (None, None) => r is Err && r->Err_0@ == no_bucket_error(),
            },
    {
        match &self.s3_bucket {
            Some(bucket) => Ok(bucket.clone()),
            None => match from_environment {
                Some(bucket) => Ok(bucket.to_owned()),
                None => {
                    let mut explanation =
                        "The field s3_bucket is empty and the environment variable ".to_owned();
                    explanation.append(DEFAULT_AWS_LAMBDA_S3_BUCKET_ENV_VAR_NAME);
                    explanation.append(" was not set");
                    Err(
                        Error::new("failed to determine AWS S3 bucket").with_explanation(
                            explanation.as_str(),
                        ),
                    )
                },
            },
        }
    }

    /// The key under which the archive of a package is stored: the prefix,
    /// the name of the package, and its version.
    pub fn s3_key(&self, name: &str, version: &str) -> (key: String)
        ensures
            key@ == self.s3_bucket_prefix@ + name@ + "/v"@ + version@ + ".zip"@,
    {
        let mut key = self.s3_bucket_prefix.clone();
        key.append(name);
        key.append("/v");
        key.append(version);
        key.append(".zip");
        key
    }

    /// The directory in which the target is built: under the target root,
    /// by target runtime, then by mode.
    pub fn target_dir(&self, target_root: &str, mode: &Mode) -> (dir: String)
        ensures
            dir@ == joined(joined(target_root@, self.target_runtime@), mode.name()),
    {
        let by_runtime = join_path(target_root, self.target_runtime.as_str());
        let name = mode.to_string();
        join_path(by_runtime.as_str(), name.as_str())
    }

    /// The directory in which the archive of a package is put together.
    pub fn lambda_root(&self, target_root: &str, mode: &Mode, package_name: &str) -> (dir: String)
        ensures
            dir@ == joined(
                joined(
                    joined(joined(target_root@, self.target_runtime@), mode.name()),
                    "aws-lambda"@,
                ),
                package_name@,
            ),
    {
        let target_dir = self.target_dir(target_root, mode);
        let lambda = join_path(target_dir.as_str(), "aws-lambda");
        join_path(lambda.as_str(), package_name)
    }

    /// The path of the archive of the target.
    pub fn archive_path(&self, target_root: &str, mode: &Mode) -> (path: String)
        ensures
            path@ == joined(
                joined(joined(target_root@, self.target_runtime@), mode.name()),
                "aws-lambda.zip"@,
            ),
    {
        let target_dir = self.target_dir(target_root, mode);
        join_path(target_dir.as_str(), "aws-lambda.zip")
    }
}

/// The text shown for the target of a package.
pub fn display_name(package_name: &str) -> (text: String)
    ensures
        text@ == "aws-lambda["@ + package_name@ + "]"@,
{
    let mut text = "aws-lambda[".to_owned();
    text.append(package_name);
    text.append("]");
    text
}

/// Whether a target is published at all: not in debug mode, unless forced.
pub fn is_published(options: &Options) -> (published: bool)
    ensures
        published == (options.mode == Mode::Release || options.force),
{
    !(options.mode.is_debug() && !options.force)
}

/// Whether the store is asked for the archive before an upload: unless
/// forced.
pub fn checks_store(options: &Options) -> (checks: bool)
    ensures
        checks == !options.force,
{
    !options.force
}

/// What is done with the archive, where `stored` says whether the store
/// holds it already.
pub fn upload_decision(options: &Options, stored: bool) -> (upload: Upload)
    ensures
        upload == if !options.force && stored {
            Upload::UpToDate
        } else if options.dry_run {
            Upload::DryRun
        } else {
            Upload::Send
        },
{
    if !options.force && stored {
        Upload::UpToDate
    } else if options.dry_run {
        Upload::DryRun
    } else {
        Upload::Send
    }
}

} // verus!
