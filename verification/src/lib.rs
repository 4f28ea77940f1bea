//! Front-matter extraction and document assembly for Markdown files that
//! carry a YAML header: the line splitter, the metadata resolver, the output
//! naming and the per-file pipeline that drives reading, rendering and
//! writing.

pub mod metadata;
pub mod pipeline;
pub mod render;
pub mod sources;
pub mod splitter;
pub mod text;
pub mod yaml;

pub use metadata::{
    parse_metadata, resolve_metadata, yaml_mapping_to_hashmap, FieldBinding, MetadataMapping,
};
pub use pipeline::{
    prepare_document, read_file_data, Action, Document, Event, FileStatus, Outcome, Pipeline,
};
pub use render::{
    derive_output_name, generate_pdf, html_data_uri, pdf_file_name, strip_md_suffix, PdfError,
};
pub use sources::get_source_front_matter_files;
pub use splitter::{split_front_matter, FrontMatterSegments};
pub use text::{char_is_whitespace, is_delimiter, str_equal};
pub use yaml::{parse_yaml, YamlNode};
