//! MIME types: parsing of content-type text (type, subtype, suffix and
//! parameters), rendering, extension tables and detection by magic bytes.

use vstd::prelude::*;
use std::path::Path;
use crate::chars::{
    find_first, find_in_range, find_last, lemma_find_first, rfind_in_range, split_on, split_ranges,
    strip, strip_range, string_of_range, trim, lemma_subrange_of_subrange,
};
use crate::media::{has_prefix, starts_with};
use crate::multimap::{has_key, key_index, lemma_key_index_unique};
use crate::pairs::{param_views, put_param, put_param_exec};
use crate::text::{
    all_ascii, ascii_lower, chars_of, str_eq, str_to_lowercase, string_push_str, to_owned_string, unicode_lowercase,
};

verus! {

/// The MIME type for an extension, already lowercased and without leading dots.
pub open spec fn extension_mime(ext: Seq<char>) -> Option<Seq<char>> {
    if ext == "txt"@ {
        Some("text/plain"@)
    } else if ext == "html"@ || ext == "htm"@ {
        Some("text/html"@)
    } else if ext == "css"@ {
        Some("text/css"@)
    } else if ext == "js"@ || ext == "mjs"@ {
        Some("text/javascript"@)
    } else if ext == "csv"@ {
        Some("text/csv"@)
    } else if ext == "xml"@ {
        Some("text/xml"@)
    } else if ext == "md"@ || ext == "markdown"@ {
        Some("text/markdown"@)
    } else if ext == "json"@ {
        Some("application/json"@)
    } else if ext == "pdf"@ {
        Some("application/pdf"@)
    } else if ext == "zip"@ {
        Some("application/zip"@)
    } else if ext == "gz"@ || ext == "gzip"@ {
        Some("application/gzip"@)
    } else if ext == "tar"@ {
        Some("application/x-tar"@)
    } else if ext == "wasm"@ {
        Some("application/wasm"@)
    } else if ext == "png"@ {
        Some("image/png"@)
    } else if ext == "jpg"@ || ext == "jpeg"@ {
        Some("image/jpeg"@)
    } else if ext == "gif"@ {
        Some("image/gif"@)
    } else if ext == "webp"@ {
        Some("image/webp"@)
    } else if ext == "svg"@ {
        Some("image/svg+xml"@)
    } else if ext == "ico"@ {
        Some("image/x-icon"@)
    } else if ext == "bmp"@ {
        Some("image/bmp"@)
    } else if ext == "mp3"@ {
        Some("audio/mpeg"@)
    } else if ext == "wav"@ {
        Some("audio/wav"@)
    } else if ext == "ogg"@ {
        Some("audio/ogg"@)
    } else if ext == "flac"@ {
        Some("audio/flac"@)
    } else if ext == "aac"@ {
        Some("audio/aac"@)
    } else if ext == "mp4"@ || ext == "m4v"@ {
        Some("video/mp4"@)
    } else if ext == "webm"@ {
        Some("video/webm"@)
    } else if ext == "ogv"@ {
        Some("video/ogg"@)
    } else if ext == "avi"@ {
        Some("video/x-msvideo"@)
    } else if ext == "mov"@ {
        Some("video/quicktime"@)
    } else if ext == "woff"@ {
        Some("font/woff"@)
    } else if ext == "woff2"@ {
        Some("font/woff2"@)
    } else if ext == "ttf"@ {
        Some("font/ttf"@)
    } else if ext == "otf"@ {
        Some("font/otf"@)
    } else if ext == "eot"@ {
        Some("application/vnd.ms-fontobject"@)
    } else if ext == "yaml"@ || ext == "yml"@ {
        Some("application/x-yaml"@)
    } else if ext == "toml"@ {
        Some("application/toml"@)
    } else if ext == "rs"@ {
        Some("text/x-rust"@)
    } else if ext == "py"@ {
        Some("text/x-python"@)
    } else if ext == "rb"@ {
        Some("text/x-ruby"@)
    } else if ext == "java"@ {
        Some("text/x-java"@)
    } else if ext == "c"@ {
        Some("text/x-c"@)
    } else if ext == "cpp"@ || ext == "cc"@ || ext == "cxx"@ {
        Some("text/x-c++"@)
    } else if ext == "h"@ {
        Some("text/x-c-header"@)
    } else if ext == "hpp"@ {
        Some("text/x-c++-header"@)
    } else if ext == "go"@ {
        Some("text/x-go"@)
    } else if ext == "sh"@ {
        Some("application/x-sh"@)
    } else if ext == "sql"@ {
        Some("application/sql"@)
    } else {
        None
    }
}

/// The usual extension for a MIME type, matched exactly.
pub open spec fn mime_extension(mime: Seq<char>) -> Option<Seq<char>> {
    if mime == "text/plain"@ {
        Some("txt"@)
    } else if mime == "text/html"@ {
        Some("html"@)
    } else if mime == "text/css"@ {
        Some("css"@)
    } else if mime == "text/javascript"@ || mime == "application/javascript"@ {
        Some("js"@)
    } else if mime == "text/csv"@ {
        Some("csv"@)
    } else if mime == "text/xml"@ || mime == "application/xml"@ {
        Some("xml"@)
    } else if mime == "text/markdown"@ {
        Some("md"@)
    } else if mime == "application/json"@ {
        Some("json"@)
    } else if mime == "application/pdf"@ {
        Some("pdf"@)
    } else if mime == "application/zip"@ {
        Some("zip"@)
    } else if mime == "application/gzip"@ {
        Some("gz"@)
    } else if mime == "image/png"@ {
        Some("png"@)
    } else if mime == "image/jpeg"@ {
        Some("jpg"@)
    } else if mime == "image/gif"@ {
        Some("gif"@)
    } else if mime == "image/webp"@ {
        Some("webp"@)
    } else if mime == "image/svg+xml"@ {
        Some("svg"@)
    } else if mime == "audio/mpeg"@ {
        Some("mp3"@)
    } else if mime == "audio/wav"@ {
        Some("wav"@)
    } else if mime == "audio/ogg"@ {
        Some("ogg"@)
    } else if mime == "video/mp4"@ {
        Some("mp4"@)
    } else if mime == "video/webm"@ {
        Some("webm"@)
    } else {
        None
    }
}


/// The extension table agrees with the reverse one: the usual extension of
/// a MIME type looks up a type whose usual extension it is again, and that
/// type is the one started from, except for the aliases
/// `application/javascript` and `application/xml`, which look up
/// `text/javascript` and `text/xml`.
pub proof fn lemma_extension_tables_agree(mime: Seq<char>)
    ensures
        mime_extension(mime) matches Some(e) ==> (extension_mime(e) matches Some(m2) && mime_extension(m2) == Some(e)),
        mime_extension(mime) matches Some(e) ==> mime != "application/javascript"@ && mime != "application/xml"@
            ==> extension_mime(e) == Some(mime),
{
    if mime == "text/plain"@ {
        assert(extension_mime("txt"@) == Some("text/plain"@)) by {
            reveal_strlit("text/plain"); reveal_strlit("txt");
            
        }
        assert(mime_extension("text/plain"@) == Some("txt"@)) by {
            reveal_strlit("text/plain"); reveal_strlit("txt");
            
        }
    }
    if mime == "text/html"@ {
        assert(extension_mime("html"@) == Some("text/html"@)) by {
            reveal_strlit("html"); reveal_strlit("text/html"); reveal_strlit("text/plain"); reveal_strlit("txt");
            assert("html"@.len() != "txt"@.len());
        }
        assert(mime_extension("text/html"@) == Some("html"@)) by {
            reveal_strlit("html"); reveal_strlit("text/html"); reveal_strlit("text/plain"); reveal_strlit("txt");
            assert("text/html"@.len() != "text/plain"@.len());
        }
    }
    if mime == "text/css"@ {
        assert(extension_mime("css"@) == Some("text/css"@)) by {
            reveal_strlit("css"); reveal_strlit("htm"); reveal_strlit("html"); reveal_strlit("text/css"); reveal_strlit("text/html"); reveal_strlit("text/plain"); reveal_strlit("txt");
            assert("css"@[0] != "txt"@[0]); assert("css"@.len() != "html"@.len()); assert("css"@[0] != "htm"@[0]);
        }
        assert(mime_extension("text/css"@) == Some("css"@)) by {
            reveal_strlit("css"); reveal_strlit("htm"); reveal_strlit("html"); reveal_strlit("text/css"); reveal_strlit("text/html"); reveal_strlit("text/plain"); reveal_strlit("txt");
            assert("text/css"@.len() != "text/plain"@.len()); assert("text/css"@.len() != "text/html"@.len());
        }
    }
    if mime == "text/javascript"@ || mime == "application/javascript"@ {
        assert(extension_mime("js"@) == Some("text/javascript"@)) by {
            reveal_strlit("css"); reveal_strlit("htm"); reveal_strlit("html"); reveal_strlit("js"); reveal_strlit("text/css"); reveal_strlit("text/html"); reveal_strlit("text/javascript"); reveal_strlit("text/plain"); reveal_strlit("txt");
            assert("js"@.len() != "txt"@.len()); assert("js"@.len() != "html"@.len()); assert("js"@.len() != "htm"@.len()); assert("js"@.len() != "css"@.len());
        }
        assert(mime_extension("text/javascript"@) == Some("js"@)) by {
            reveal_strlit("css"); reveal_strlit("htm"); reveal_strlit("html"); reveal_strlit("js"); reveal_strlit("text/css"); reveal_strlit("text/html"); reveal_strlit("text/javascript"); reveal_strlit("text/plain"); reveal_strlit("txt");
            assert("text/javascript"@.len() != "text/plain"@.len()); assert("text/javascript"@.len() != "text/html"@.len()); assert("text/javascript"@.len() != "text/css"@.len());
        }
    }
    if mime == "text/csv"@ {
        assert(extension_mime("csv"@) == Some("text/csv"@)) by {
            reveal_strlit("application/javascript"); reveal_strlit("css"); reveal_strlit("csv"); reveal_strlit("htm"); reveal_strlit("html"); reveal_strlit("js"); reveal_strlit("mjs"); reveal_strlit("text/css"); reveal_strlit("text/csv"); reveal_strlit("text/html"); reveal_strlit("text/javascript"); reveal_strlit("text/plain"); reveal_strlit("txt");
            assert("csv"@[0] != "txt"@[0]); assert("csv"@.len() != "html"@.len()); assert("csv"@[0] != "htm"@[0]); assert("csv"@[2] != "css"@[2]); assert("csv"@.len() != "js"@.len()); assert("csv"@[0] != "mjs"@[0]);
        }
        assert(mime_extension("text/csv"@) == Some("csv"@)) by {
            reveal_strlit("application/javascript"); reveal_strlit("css"); reveal_strlit("csv"); reveal_strlit("htm"); reveal_strlit("html"); reveal_strlit("js"); reveal_strlit("mjs"); reveal_strlit("text/css"); reveal_strlit("text/csv"); reveal_strlit("text/html"); reveal_strlit("text/javascript"); reveal_strlit("text/plain"); reveal_strlit("txt");
            assert("text/csv"@.len() != "text/plain"@.len()); assert("text/csv"@.len() != "text/html"@.len()); assert("text/csv"@[7] != "text/css"@[7]); assert("text/csv"@.len() != "text/javascript"@.len()); assert("text/csv"@.len() != "application/javascript"@.len());
        }
    }
    if mime == "text/xml"@ || mime == "application/xml"@ {
        assert(extension_mime("xml"@) == Some("text/xml"@)) by {
            reveal_strlit("application/javascript"); reveal_strlit("css"); reveal_strlit("csv"); reveal_strlit("htm"); reveal_strlit("html"); reveal_strlit("js"); reveal_strlit("mjs"); reveal_strlit("text/css"); reveal_strlit("text/csv"); reveal_strlit("text/html"); reveal_strlit("text/javascript"); reveal_strlit("text/plain"); reveal_strlit("text/xml"); reveal_strlit("txt"); reveal_strlit("xml");
            assert("xml"@[0] != "txt"@[0]); assert("xml"@.len() != "html"@.len()); assert("xml"@[0] != "htm"@[0]); assert("xml"@[0] != "css"@[0]); assert("xml"@.len() != "js"@.len()); assert("xml"@[0] != "mjs"@[0]); assert("xml"@[0] != "csv"@[0]);
        }
        assert(mime_extension("text/xml"@) == Some("xml"@)) by {
            reveal_strlit("application/javascript"); reveal_strlit("css"); reveal_strlit("csv"); reveal_strlit("htm"); reveal_strlit("html"); reveal_strlit("js"); reveal_strlit("mjs"); reveal_strlit("text/css"); reveal_strlit("text/csv"); reveal_strlit("text/html"); reveal_strlit("text/javascript"); reveal_strlit("text/plain"); reveal_strlit("text/xml"); reveal_strlit("txt"); reveal_strlit("xml");
            assert("text/xml"@.len() != "text/plain"@.len()); assert("text/xml"@.len() != "text/html"@.len()); assert("text/xml"@[5] != "text/css"@[5]); assert("text/xml"@.len() != "text/javascript"@.len()); assert("text/xml"@.len() != "application/javascript"@.len()); assert("text/xml"@[5] != "text/csv"@[5]);
        }
    }
    if mime == "text/markdown"@ {
        assert(extension_mime("md"@) == Some("text/markdown"@)) by {
            reveal_strlit("application/javascript"); reveal_strlit("application/xml"); reveal_strlit("css"); reveal_strlit("csv"); reveal_strlit("htm"); reveal_strlit("html"); reveal_strlit("js"); reveal_strlit("md"); reveal_strlit("mjs"); reveal_strlit("text/css"); reveal_strlit("text/csv"); reveal_strlit("text/html"); reveal_strlit("text/javascript"); reveal_strlit("text/markdown"); reveal_strlit("text/plain"); reveal_strlit("text/xml"); reveal_strlit("txt"); reveal_strlit("xml");
            assert("md"@.len() != "txt"@.len()); assert("md"@.len() != "html"@.len()); assert("md"@.len() != "htm"@.len()); assert("md"@.len() != "css"@.len()); assert("md"@[0] != "js"@[0]); assert("md"@.len() != "mjs"@.len()); assert("md"@.len() != "csv"@.len()); assert("md"@.len() != "xml"@.len());
        }
        assert(mime_extension("text/markdown"@) == Some("md"@)) by {
            reveal_strlit("application/javascript"); reveal_strlit("application/xml"); reveal_strlit("css"); reveal_strlit("csv"); reveal_strlit("htm"); reveal_strlit("html"); reveal_strlit("js"); reveal_strlit("md"); reveal_strlit("mjs"); reveal_strlit("text/css"); reveal_strlit("text/csv"); reveal_strlit("text/html"); reveal_strlit("text/javascript"); reveal_strlit("text/markdown"); reveal_strlit("text/plain"); reveal_strlit("text/xml"); reveal_strlit("txt"); reveal_strlit("xml");
            assert("text/markdown"@.len() != "text/plain"@.len()); assert("text/markdown"@.len() != "text/html"@.len()); assert("text/markdown"@.len() != "text/css"@.len()); assert("text/markdown"@.len() != "text/javascript"@.len()); assert("text/markdown"@.len() != "application/javascript"@.len()); assert("text/markdown"@.len() != "text/csv"@.len()); assert("text/markdown"@.len() != "text/xml"@.len()); assert("text/markdown"@.len() != "application/xml"@.len());
        }
    }
    if mime == "application/json"@ {
        assert(extension_mime("json"@) == Some("application/json"@)) by {
            reveal_strlit("application/javascript"); reveal_strlit("application/json"); reveal_strlit("application/xml"); reveal_strlit("css"); reveal_strlit("csv"); reveal_strlit("htm"); reveal_strlit("html"); reveal_strlit("js"); reveal_strlit("json"); reveal_strlit("markdown"); reveal_strlit("md"); reveal_strlit("mjs"); reveal_strlit("text/css"); reveal_strlit("text/csv"); reveal_strlit("text/html"); reveal_strlit("text/javascript"); reveal_strlit("text/markdown"); reveal_strlit("text/plain"); reveal_strlit("text/xml"); reveal_strlit("txt"); reveal_strlit("xml");
            assert("json"@.len() != "txt"@.len()); assert("json"@[0] != "html"@[0]); assert("json"@.len() != "htm"@.len()); assert("json"@.len() != "css"@.len()); assert("json"@.len() != "js"@.len()); assert("json"@.len() != "mjs"@.len()); assert("json"@.len() != "csv"@.len()); assert("json"@.len() != "xml"@.len()); assert("json"@.len() != "md"@.len()); assert("json"@.len() != "markdown"@.len());
        }
        assert(mime_extension("application/json"@) == Some("json"@)) by {
            reveal_strlit("application/javascript"); reveal_strlit("application/json"); reveal_strlit("application/xml"); reveal_strlit("css"); reveal_strlit("csv"); reveal_strlit("htm"); reveal_strlit("html"); reveal_strlit("js"); reveal_strlit("json"); reveal_strlit("markdown"); reveal_strlit("md"); reveal_strlit("mjs"); reveal_strlit("text/css"); reveal_strlit("text/csv"); reveal_strlit("text/html"); reveal_strlit("text/javascript"); reveal_strlit("text/markdown"); reveal_strlit("text/plain"); reveal_strlit("text/xml"); reveal_strlit("txt"); reveal_strlit("xml");
            assert("application/json"@.len() != "text/plain"@.len()); assert("application/json"@.len() != "text/html"@.len()); assert("application/json"@.len() != "text/css"@.len()); assert("application/json"@.len() != "text/javascript"@.len()); assert("application/json"@.len() != "application/javascript"@.len()); assert("application/json"@.len() != "text/csv"@.len()); assert("application/json"@.len() != "text/xml"@.len()); assert("application/json"@.len() != "application/xml"@.len()); assert("application/json"@.len() != "text/markdown"@.len());
        }
    }
    if mime == "application/pdf"@ {
        assert(extension_mime("pdf"@) == Some("application/pdf"@)) by {
            reveal_strlit("application/javascript"); reveal_strlit("application/json"); reveal_strlit("application/pdf"); reveal_strlit("application/xml"); reveal_strlit("css"); reveal_strlit("csv"); reveal_strlit("htm"); reveal_strlit("html"); reveal_strlit("js"); reveal_strlit("json"); reveal_strlit("markdown"); reveal_strlit("md"); reveal_strlit("mjs"); reveal_strlit("pdf"); reveal_strlit("text/css"); reveal_strlit("text/csv"); reveal_strlit("text/html"); reveal_strlit("text/javascript"); reveal_strlit("text/markdown"); reveal_strlit("text/plain"); reveal_strlit("text/xml"); reveal_strlit("txt"); reveal_strlit("xml");
            assert("pdf"@[0] != "txt"@[0]); assert("pdf"@.len() != "html"@.len()); assert("pdf"@[0] != "htm"@[0]); assert("pdf"@[0] != "css"@[0]); assert("pdf"@.len() != "js"@.len()); assert("pdf"@[0] != "mjs"@[0]); assert("pdf"@[0] != "csv"@[0]); assert("pdf"@[0] != "xml"@[0]); assert("pdf"@.len() != "md"@.len()); assert("pdf"@.len() != "markdown"@.len()); assert("pdf"@.len() != "json"@.len());
        }
        assert(mime_extension("application/pdf"@) == Some("pdf"@)) by {
            reveal_strlit("application/javascript"); reveal_strlit("application/json"); reveal_strlit("application/pdf"); reveal_strlit("application/xml"); reveal_strlit("css"); reveal_strlit("csv"); reveal_strlit("htm"); reveal_strlit("html"); reveal_strlit("js"); reveal_strlit("json"); reveal_strlit("markdown"); reveal_strlit("md"); reveal_strlit("mjs"); reveal_strlit("pdf"); reveal_strlit("text/css"); reveal_strlit("text/csv"); reveal_strlit("text/html"); reveal_strlit("text/javascript"); reveal_strlit("text/markdown"); reveal_strlit("text/plain"); reveal_strlit("text/xml"); reveal_strlit("txt"); reveal_strlit("xml");
            assert("application/pdf"@.len() != "text/plain"@.len()); assert("application/pdf"@.len() != "text/html"@.len()); assert("application/pdf"@.len() != "text/css"@.len()); assert("application/pdf"@[0] != "text/javascript"@[0]); assert("application/pdf"@.len() != "application/javascript"@.len()); assert("application/pdf"@.len() != "text/csv"@.len()); assert("application/pdf"@.len() != "text/xml"@.len()); assert("application/pdf"@[12] != "application/xml"@[12]); assert("application/pdf"@.len() != "text/markdown"@.len()); assert("application/pdf"@.len() != "application/json"@.len());
        }
    }
    if mime == "application/zip"@ {
        assert(extension_mime("zip"@) == Some("application/zip"@)) by {
            reveal_strlit("application/javascript"); reveal_strlit("application/json"); reveal_strlit("application/pdf"); reveal_strlit("application/xml"); reveal_strlit("application/zip"); reveal_strlit("css"); reveal_strlit("csv"); reveal_strlit("htm"); reveal_strlit("html"); reveal_strlit("js"); reveal_strlit("json"); reveal_strlit("markdown"); reveal_strlit("md"); reveal_strlit("mjs"); reveal_strlit("pdf"); reveal_strlit("text/css"); reveal_strlit("text/csv"); reveal_strlit("text/html"); reveal_strlit("text/javascript"); reveal_strlit("text/markdown"); reveal_strlit("text/plain"); reveal_strlit("text/xml"); reveal_strlit("txt"); reveal_strlit("xml"); reveal_strlit("zip");
            assert("zip"@[0] != "txt"@[0]); assert("zip"@.len() != "html"@.len()); assert("zip"@[0] != "htm"@[0]); assert("zip"@[0] != "css"@[0]); assert("zip"@.len() != "js"@.len()); assert("zip"@[0] != "mjs"@[0]); assert("zip"@[0] != "csv"@[0]); assert("zip"@[0] != "xml"@[0]); assert("zip"@.len() != "md"@.len()); assert("zip"@.len() != "markdown"@.len()); assert("zip"@.len() != "json"@.len()); assert("zip"@[0] != "pdf"@[0]);
        }
        assert(mime_extension("application/zip"@) == Some("zip"@)) by {
            reveal_strlit("application/javascript"); reveal_strlit("application/json"); reveal_strlit("application/pdf"); reveal_strlit("application/xml"); reveal_strlit("application/zip"); reveal_strlit("css"); reveal_strlit("csv"); reveal_strlit("htm"); reveal_strlit("html"); reveal_strlit("js"); reveal_strlit("json"); reveal_strlit("markdown"); reveal_strlit("md"); reveal_strlit("mjs"); reveal_strlit("pdf"); reveal_strlit("text/css"); reveal_strlit("text/csv"); reveal_strlit("text/html"); reveal_strlit("text/javascript"); reveal_strlit("text/markdown"); reveal_strlit("text/plain"); reveal_strlit("text/xml"); reveal_strlit("txt"); reveal_strlit("xml"); reveal_strlit("zip");
            assert("application/zip"@.len() != "text/plain"@.len()); assert("application/zip"@.len() != "text/html"@.len()); assert("application/zip"@.len() != "text/css"@.len()); assert("application/zip"@[0] != "text/javascript"@[0]); assert("application/zip"@.len() != "application/javascript"@.len()); assert("application/zip"@.len() != "text/csv"@.len()); assert("application/zip"@.len() != "text/xml"@.len()); assert("application/zip"@[12] != "application/xml"@[12]); assert("application/zip"@.len() != "text/markdown"@.len()); assert("application/zip"@.len() != "application/json"@.len()); assert("application/zip"@[12] != "application/pdf"@[12]);
        }
    }
    if mime == "application/gzip"@ {
        assert(extension_mime("gz"@) == Some("application/gzip"@)) by {
            reveal_strlit("application/gzip"); reveal_strlit("application/javascript"); reveal_strlit("application/json"); reveal_strlit("application/pdf"); reveal_strlit("application/xml"); reveal_strlit("application/zip"); reveal_strlit("css"); reveal_strlit("csv"); reveal_strlit("gz"); reveal_strlit("htm"); reveal_strlit("html"); reveal_strlit("js"); reveal_strlit("json"); reveal_strlit("markdown"); reveal_strlit("md"); reveal_strlit("mjs"); reveal_strlit("pdf"); reveal_strlit("text/css"); reveal_strlit("text/csv"); reveal_strlit("text/html"); reveal_strlit("text/javascript"); reveal_strlit("text/markdown"); reveal_strlit("text/plain"); reveal_strlit("text/xml"); reveal_strlit("txt"); reveal_strlit("xml"); reveal_strlit("zip");
            assert("gz"@.len() != "txt"@.len()); assert("gz"@.len() != "html"@.len()); assert("gz"@.len() != "htm"@.len()); assert("gz"@.len() != "css"@.len()); assert("gz"@[0] != "js"@[0]); assert("gz"@.len() != "mjs"@.len()); assert("gz"@.len() != "csv"@.len()); assert("gz"@.len() != "xml"@.len()); assert("gz"@[0] != "md"@[0]); assert("gz"@.len() != "markdown"@.len()); assert("gz"@.len() != "json"@.len()); assert("gz"@.len() != "pdf"@.len()); assert("gz"@.len() != "zip"@.len());
        }
        assert(mime_extension("application/gzip"@) == Some("gz"@)) by {
            reveal_strlit("application/gzip"); reveal_strlit("application/javascript"); reveal_strlit("application/json"); reveal_strlit("application/pdf"); reveal_strlit("application/xml"); reveal_strlit("application/zip"); reveal_strlit("css"); reveal_strlit("csv"); reveal_strlit("gz"); reveal_strlit("htm"); reveal_strlit("html"); reveal_strlit("js"); reveal_strlit("json"); reveal_strlit("markdown"); reveal_strlit("md"); reveal_strlit("mjs"); reveal_strlit("pdf"); reveal_strlit("text/css"); reveal_strlit("text/csv"); reveal_strlit("text/html"); reveal_strlit("text/javascript"); reveal_strlit("text/markdown"); reveal_strlit("text/plain"); reveal_strlit("text/xml"); reveal_strlit("txt"); reveal_strlit("xml"); reveal_strlit("zip");
            assert("application/gzip"@.len() != "text/plain"@.len()); assert("application/gzip"@.len() != "text/html"@.len()); assert("application/gzip"@.len() != "text/css"@.len()); assert("application/gzip"@.len() != "text/javascript"@.len()); assert("application/gzip"@.len() != "application/javascript"@.len()); assert("application/gzip"@.len() != "text/csv"@.len()); assert("application/gzip"@.len() != "text/xml"@.len()); assert("application/gzip"@.len() != "application/xml"@.len()); assert("application/gzip"@.len() != "text/markdown"@.len()); assert("application/gzip"@[12] != "application/json"@[12]); assert("application/gzip"@.len() != "application/pdf"@.len()); assert("application/gzip"@.len() != "application/zip"@.len());
        }
    }
    if mime == "image/png"@ {
        assert(extension_mime("png"@) == Some("image/png"@)) by {
            reveal_strlit("application/gzip"); reveal_strlit("application/javascript"); reveal_strlit("application/json"); reveal_strlit("application/pdf"); reveal_strlit("application/xml"); reveal_strlit("application/zip"); reveal_strlit("css"); reveal_strlit("csv"); reveal_strlit("gz"); reveal_strlit("gzip"); reveal_strlit("htm"); reveal_strlit("html"); reveal_strlit("image/png"); reveal_strlit("js"); reveal_strlit("json"); reveal_strlit("markdown"); reveal_strlit("md"); reveal_strlit("mjs"); reveal_strlit("pdf"); reveal_strlit("png"); reveal_strlit("tar"); reveal_strlit("text/css"); reveal_strlit("text/csv"); reveal_strlit("text/html"); reveal_strlit("text/javascript"); reveal_strlit("text/markdown"); reveal_strlit("text/plain"); reveal_strlit("text/xml"); reveal_strlit("txt"); reveal_strlit("wasm"); reveal_strlit("xml"); reveal_strlit("zip");
            assert("png"@[0] != "txt"@[0]); assert("png"@.len() != "html"@.len()); assert("png"@[0] != "htm"@[0]); assert("png"@[0] != "css"@[0]); assert("png"@.len() != "js"@.len()); assert("png"@[0] != "mjs"@[0]); assert("png"@[0] != "csv"@[0]); assert("png"@[0] != "xml"@[0]); assert("png"@.len() != "md"@.len()); assert("png"@.len() != "markdown"@.len()); assert("png"@.len() != "json"@.len()); assert("png"@[1] != "pdf"@[1]); assert("png"@[0] != "zip"@[0]); assert("png"@.len() != "gz"@.len()); assert("png"@.len() != "gzip"@.len()); assert("png"@[0] != "tar"@[0]); assert("png"@.len() != "wasm"@.len());
        }
        assert(mime_extension("image/png"@) == Some("png"@)) by {
            reveal_strlit("application/gzip"); reveal_strlit("application/javascript"); reveal_strlit("application/json"); reveal_strlit("application/pdf"); reveal_strlit("application/xml"); reveal_strlit("application/zip"); reveal_strlit("css"); reveal_strlit("csv"); reveal_strlit("gz"); reveal_strlit("gzip"); reveal_strlit("htm"); reveal_strlit("html"); reveal_strlit("image/png"); reveal_strlit("js"); reveal_strlit("json"); reveal_strlit("markdown"); reveal_strlit("md"); reveal_strlit("mjs"); reveal_strlit("pdf"); reveal_strlit("png"); reveal_strlit("tar"); reveal_strlit("text/css"); reveal_strlit("text/csv"); reveal_strlit("text/html"); reveal_strlit("text/javascript"); reveal_strlit("text/markdown"); reveal_strlit("text/plain"); reveal_strlit("text/xml"); reveal_strlit("txt"); reveal_strlit("wasm"); reveal_strlit("xml"); reveal_strlit("zip");
            assert("image/png"@.len() != "text/plain"@.len()); assert("image/png"@[0] != "text/html"@[0]); assert("image/png"@.len() != "text/css"@.len()); assert("image/png"@.len() != "text/javascript"@.len()); assert("image/png"@.len() != "application/javascript"@.len()); assert("image/png"@.len() != "text/csv"@.len()); assert("image/png"@.len() != "text/xml"@.len()); assert("image/png"@.len() != "application/xml"@.len()); assert("image/png"@.len() != "text/markdown"@.len()); assert("image/png"@.len() != "application/json"@.len()); assert("image/png"@.len() != "application/pdf"@.len()); assert("image/png"@.len() != "application/zip"@.len()); assert("image/png"@.len() != "application/gzip"@.len());
        }
    }
    if mime == "image/jpeg"@ {
        assert(extension_mime("jpg"@) == Some("image/jpeg"@)) by {
            reveal_strlit("application/gzip"); reveal_strlit("application/javascript"); reveal_strlit("application/json"); reveal_strlit("application/pdf"); reveal_strlit("application/xml"); reveal_strlit("application/zip"); reveal_strlit("css"); reveal_strlit("csv"); reveal_strlit("gz"); reveal_strlit("gzip"); reveal_strlit("htm"); reveal_strlit("html"); reveal_strlit("image/jpeg"); reveal_strlit("image/png"); reveal_strlit("jpg"); reveal_strlit("js"); reveal_strlit("json"); reveal_strlit("markdown"); reveal_strlit("md"); reveal_strlit("mjs"); reveal_strlit("pdf"); reveal_strlit("png"); reveal_strlit("tar"); reveal_strlit("text/css"); reveal_strlit("text/csv"); reveal_strlit("text/html"); reveal_strlit("text/javascript"); reveal_strlit("text/markdown"); reveal_strlit("text/plain"); reveal_strlit("text/xml"); reveal_strlit("txt"); reveal_strlit("wasm"); reveal_strlit("xml"); reveal_strlit("zip");
            assert("jpg"@[0] != "txt"@[0]); assert("jpg"@.len() != "html"@.len()); assert("jpg"@[0] != "htm"@[0]); assert("jpg"@[0] != "css"@[0]); assert("jpg"@.len() != "js"@.len()); assert("jpg"@[0] != "mjs"@[0]); assert("jpg"@[0] != "csv"@[0]); assert("jpg"@[0] != "xml"@[0]); assert("jpg"@.len() != "md"@.len()); assert("jpg"@.len() != "markdown"@.len()); assert("jpg"@.len() != "json"@.len()); assert("jpg"@[0] != "pdf"@[0]); assert("jpg"@[0] != "zip"@[0]); assert("jpg"@.len() != "gz"@.len()); assert("jpg"@.len() != "gzip"@.len()); assert("jpg"@[0] != "tar"@[0]); assert("jpg"@.len() != "wasm"@.len()); assert("jpg"@[0] != "png"@[0]);
        }
        assert(mime_extension("image/jpeg"@) == Some("jpg"@)) by {
            reveal_strlit("application/gzip"); reveal_strlit("application/javascript"); reveal_strlit("application/json"); reveal_strlit("application/pdf"); reveal_strlit("application/xml"); reveal_strlit("application/zip"); reveal_strlit("css"); reveal_strlit("csv"); reveal_strlit("gz"); reveal_strlit("gzip"); reveal_strlit("htm"); reveal_strlit("html"); reveal_strlit("image/jpeg"); reveal_strlit("image/png"); reveal_strlit("jpg"); reveal_strlit("js"); reveal_strlit("json"); reveal_strlit("markdown"); reveal_strlit("md"); reveal_strlit("mjs"); reveal_strlit("pdf"); reveal_strlit("png"); reveal_strlit("tar"); reveal_strlit("text/css"); reveal_strlit("text/csv"); reveal_strlit("text/html"); reveal_strlit("text/javascript"); reveal_strlit("text/markdown"); reveal_strlit("text/plain"); reveal_strlit("text/xml"); reveal_strlit("txt"); reveal_strlit("wasm"); reveal_strlit("xml"); reveal_strlit("zip");
            assert("image/jpeg"@[0] != "text/plain"@[0]); assert("image/jpeg"@.len() != "text/html"@.len()); assert("image/jpeg"@.len() != "text/css"@.len()); assert("image/jpeg"@.len() != "text/javascript"@.len()); assert("image/jpeg"@.len() != "application/javascript"@.len()); assert("image/jpeg"@.len() != "text/csv"@.len()); assert("image/jpeg"@.len() != "text/xml"@.len()); assert("image/jpeg"@.len() != "application/xml"@.len()); assert("image/jpeg"@.len() != "text/markdown"@.len()); assert("image/jpeg"@.len() != "application/json"@.len()); assert("image/jpeg"@.len() != "application/pdf"@.len()); assert("image/jpeg"@.len() != "application/zip"@.len()); assert("image/jpeg"@.len() != "application/gzip"@.len()); assert("image/jpeg"@.len() != "image/png"@.len());
        }
    }
    if mime == "image/gif"@ {
        assert(extension_mime("gif"@) == Some("image/gif"@)) by {
            reveal_strlit("application/gzip"); reveal_strlit("application/javascript"); reveal_strlit("application/json"); reveal_strlit("application/pdf"); reveal_strlit("application/xml"); reveal_strlit("application/zip"); reveal_strlit("css"); reveal_strlit("csv"); reveal_strlit("gif"); reveal_strlit("gz"); reveal_strlit("gzip"); reveal_strlit("htm"); reveal_strlit("html"); reveal_strlit("image/gif"); reveal_strlit("image/jpeg"); reveal_strlit("image/png"); reveal_strlit("jpeg"); reveal_strlit("jpg"); reveal_strlit("js"); reveal_strlit("json"); reveal_strlit("markdown"); reveal_strlit("md"); reveal_strlit("mjs"); reveal_strlit("pdf"); reveal_strlit("png"); reveal_strlit("tar"); reveal_strlit("text/css"); reveal_strlit("text/csv"); reveal_strlit("text/html"); reveal_strlit("text/javascript"); reveal_strlit("text/markdown"); reveal_strlit("text/plain"); reveal_strlit("text/xml"); reveal_strlit("txt"); reveal_strlit("wasm"); reveal_strlit("xml"); reveal_strlit("zip");
            assert("gif"@[0] != "txt"@[0]); assert("gif"@.len() != "html"@.len()); assert("gif"@[0] != "htm"@[0]); assert("gif"@[0] != "css"@[0]); assert("gif"@.len() != "js"@.len()); assert("gif"@[0] != "mjs"@[0]); assert("gif"@[0] != "csv"@[0]); assert("gif"@[0] != "xml"@[0]); assert("gif"@.len() != "md"@.len()); assert("gif"@.len() != "markdown"@.len()); assert("gif"@.len() != "json"@.len()); assert("gif"@[0] != "pdf"@[0]); assert("gif"@[0] != "zip"@[0]); assert("gif"@.len() != "gz"@.len()); assert("gif"@.len() != "gzip"@.len()); assert("gif"@[0] != "tar"@[0]); assert("gif"@.len() != "wasm"@.len()); assert("gif"@[0] != "png"@[0]); assert("gif"@[0] != "jpg"@[0]); assert("gif"@.len() != "jpeg"@.len());
        }
        assert(mime_extension("image/gif"@) == Some("gif"@)) by {
            reveal_strlit("application/gzip"); reveal_strlit("application/javascript"); reveal_strlit("application/json"); reveal_strlit("application/pdf"); reveal_strlit("application/xml"); reveal_strlit("application/zip"); reveal_strlit("css"); reveal_strlit("csv"); reveal_strlit("gif"); reveal_strlit("gz"); reveal_strlit("gzip"); reveal_strlit("htm"); reveal_strlit("html"); reveal_strlit("image/gif"); reveal_strlit("image/jpeg"); reveal_strlit("image/png"); reveal_strlit("jpeg"); reveal_strlit("jpg"); reveal_strlit("js"); reveal_strlit("json"); reveal_strlit("markdown"); reveal_strlit("md"); reveal_strlit("mjs"); reveal_strlit("pdf"); reveal_strlit("png"); reveal_strlit("tar"); reveal_strlit("text/css"); reveal_strlit("text/csv"); reveal_strlit("text/html"); reveal_strlit("text/javascript"); reveal_strlit("text/markdown"); reveal_strlit("text/plain"); reveal_strlit("text/xml"); reveal_strlit("txt"); reveal_strlit("wasm"); reveal_strlit("xml"); reveal_strlit("zip");
            assert("image/gif"@.len() != "text/plain"@.len()); assert("image/gif"@[0] != "text/html"@[0]); assert("image/gif"@.len() != "text/css"@.len()); assert("image/gif"@.len() != "text/javascript"@.len()); assert("image/gif"@.len() != "application/javascript"@.len()); assert("image/gif"@.len() != "text/csv"@.len()); assert("image/gif"@.len() != "text/xml"@.len()); assert("image/gif"@.len() != "application/xml"@.len()); assert("image/gif"@.len() != "text/markdown"@.len()); assert("image/gif"@.len() != "application/json"@.len()); assert("image/gif"@.len() != "application/pdf"@.len()); assert("image/gif"@.len() != "application/zip"@.len()); assert("image/gif"@.len() != "application/gzip"@.len()); assert("image/gif"@[6] != "image/png"@[6]); assert("image/gif"@.len() != "image/jpeg"@.len());
        }
    }
    if mime == "image/webp"@ {
        assert(extension_mime("webp"@) == Some("image/webp"@)) by {
            reveal_strlit("application/gzip"); reveal_strlit("application/javascript"); reveal_strlit("application/json"); reveal_strlit("application/pdf"); reveal_strlit("application/xml"); reveal_strlit("application/zip"); reveal_strlit("css"); reveal_strlit("csv"); reveal_strlit("gif"); reveal_strlit("gz"); reveal_strlit("gzip"); reveal_strlit("htm"); reveal_strlit("html"); reveal_strlit("image/gif"); reveal_strlit("image/jpeg"); reveal_strlit("image/png"); reveal_strlit("image/webp"); reveal_strlit("jpeg"); reveal_strlit("jpg"); reveal_strlit("js"); reveal_strlit("json"); reveal_strlit("markdown"); reveal_strlit("md"); reveal_strlit("mjs"); reveal_strlit("pdf"); reveal_strlit("png"); reveal_strlit("tar"); reveal_strlit("text/css"); reveal_strlit("text/csv"); reveal_strlit("text/html"); reveal_strlit("text/javascript"); reveal_strlit("text/markdown"); reveal_strlit("text/plain"); reveal_strlit("text/xml"); reveal_strlit("txt"); reveal_strlit("wasm"); reveal_strlit("webp"); reveal_strlit("xml"); reveal_strlit("zip");
            assert("webp"@.len() != "txt"@.len()); assert("webp"@[0] != "html"@[0]); assert("webp"@.len() != "htm"@.len()); assert("webp"@.len() != "css"@.len()); assert("webp"@.len() != "js"@.len()); assert("webp"@.len() != "mjs"@.len()); assert("webp"@.len() != "csv"@.len()); assert("webp"@.len() != "xml"@.len()); assert("webp"@.len() != "md"@.len()); assert("webp"@.len() != "markdown"@.len()); assert("webp"@[0] != "json"@[0]); assert("webp"@.len() != "pdf"@.len()); assert("webp"@.len() != "zip"@.len()); assert("webp"@.len() != "gz"@.len()); assert("webp"@[0] != "gzip"@[0]); assert("webp"@.len() != "tar"@.len()); assert("webp"@[1] != "wasm"@[1]); assert("webp"@.len() != "png"@.len()); assert("webp"@.len() != "jpg"@.len()); assert("webp"@[0] != "jpeg"@[0]); assert("webp"@.len() != "gif"@.len());
        }
        assert(mime_extension("image/webp"@) == Some("webp"@)) by {
            reveal_strlit("application/gzip"); reveal_strlit("application/javascript"); reveal_strlit("application/json"); reveal_strlit("application/pdf"); reveal_strlit("application/xml"); reveal_strlit("application/zip"); reveal_strlit("css"); reveal_strlit("csv"); reveal_strlit("gif"); reveal_strlit("gz"); reveal_strlit("gzip"); reveal_strlit("htm"); reveal_strlit("html"); reveal_strlit("image/gif"); reveal_strlit("image/jpeg"); reveal_strlit("image/png"); reveal_strlit("image/webp"); reveal_strlit("jpeg"); reveal_strlit("jpg"); reveal_strlit("js"); reveal_strlit("json"); reveal_strlit("markdown"); reveal_strlit("md"); reveal_strlit("mjs"); reveal_strlit("pdf"); reveal_strlit("png"); reveal_strlit("tar"); reveal_strlit("text/css"); reveal_strlit("text/csv"); reveal_strlit("text/html"); reveal_strlit("text/javascript"); reveal_strlit("text/markdown"); reveal_strlit("text/plain"); reveal_strlit("text/xml"); reveal_strlit("txt"); reveal_strlit("wasm"); reveal_strlit("webp"); reveal_strlit("xml"); reveal_strlit("zip");
            assert("image/webp"@[0] != "text/plain"@[0]); assert("image/webp"@.len() != "text/html"@.len()); assert("image/webp"@.len() != "text/css"@.len()); assert("image/webp"@.len() != "text/javascript"@.len()); assert("image/webp"@.len() != "application/javascript"@.len()); assert("image/webp"@.len() != "text/csv"@.len()); assert("image/webp"@.len() != "text/xml"@.len()); assert("image/webp"@.len() != "application/xml"@.len()); assert("image/webp"@.len() != "text/markdown"@.len()); assert("image/webp"@.len() != "application/json"@.len()); assert("image/webp"@.len() != "application/pdf"@.len()); assert("image/webp"@.len() != "application/zip"@.len()); assert("image/webp"@.len() != "application/gzip"@.len()); assert("image/webp"@.len() != "image/png"@.len()); assert("image/webp"@[6] != "image/jpeg"@[6]); assert("image/webp"@.len() != "image/gif"@.len());
        }
    }
    if mime == "image/svg+xml"@ {
        assert(extension_mime("svg"@) == Some("image/svg+xml"@)) by {
            reveal_strlit("application/gzip"); reveal_strlit("application/javascript"); reveal_strlit("application/json"); reveal_strlit("application/pdf"); reveal_strlit("application/xml"); reveal_strlit("application/zip"); reveal_strlit("css"); reveal_strlit("csv"); reveal_strlit("gif"); reveal_strlit("gz"); reveal_strlit("gzip"); reveal_strlit("htm"); reveal_strlit("html"); reveal_strlit("image/gif"); reveal_strlit("image/jpeg"); reveal_strlit("image/png"); reveal_strlit("image/svg+xml"); reveal_strlit("image/webp"); reveal_strlit("jpeg"); reveal_strlit("jpg"); reveal_strlit("js"); reveal_strlit("json"); reveal_strlit("markdown"); reveal_strlit("md"); reveal_strlit("mjs"); reveal_strlit("pdf"); reveal_strlit("png"); reveal_strlit("svg"); reveal_strlit("tar"); reveal_strlit("text/css"); reveal_strlit("text/csv"); reveal_strlit("text/html"); reveal_strlit("text/javascript"); reveal_strlit("text/markdown"); reveal_strlit("text/plain"); reveal_strlit("text/xml"); reveal_strlit("txt"); reveal_strlit("wasm"); reveal_strlit("webp"); reveal_strlit("xml"); reveal_strlit("zip");
            assert("svg"@[0] != "txt"@[0]); assert("svg"@.len() != "html"@.len()); assert("svg"@[0] != "htm"@[0]); assert("svg"@[0] != "css"@[0]); assert("svg"@.len() != "js"@.len()); assert("svg"@[0] != "mjs"@[0]); assert("svg"@[0] != "csv"@[0]); assert("svg"@[0] != "xml"@[0]); assert("svg"@.len() != "md"@.len()); assert("svg"@.len() != "markdown"@.len()); assert("svg"@.len() != "json"@.len()); assert("svg"@[0] != "pdf"@[0]); assert("svg"@[0] != "zip"@[0]); assert("svg"@.len() != "gz"@.len()); assert("svg"@.len() != "gzip"@.len()); assert("svg"@[0] != "tar"@[0]); assert("svg"@.len() != "wasm"@.len()); assert("svg"@[0] != "png"@[0]); assert("svg"@[0] != "jpg"@[0]); assert("svg"@.len() != "jpeg"@.len()); assert("svg"@[0] != "gif"@[0]); assert("svg"@.len() != "webp"@.len());
        }
        assert(mime_extension("image/svg+xml"@) == Some("svg"@)) by {
            reveal_strlit("application/gzip"); reveal_strlit("application/javascript"); reveal_strlit("application/json"); reveal_strlit("application/pdf"); reveal_strlit("application/xml"); reveal_strlit("application/zip"); reveal_strlit("css"); reveal_strlit("csv"); reveal_strlit("gif"); reveal_strlit("gz"); reveal_strlit("gzip"); reveal_strlit("htm"); reveal_strlit("html"); reveal_strlit("image/gif"); reveal_strlit("image/jpeg"); reveal_strlit("image/png"); reveal_strlit("image/svg+xml"); reveal_strlit("image/webp"); reveal_strlit("jpeg"); reveal_strlit("jpg"); reveal_strlit("js"); reveal_strlit("json"); reveal_strlit("markdown"); reveal_strlit("md"); reveal_strlit("mjs"); reveal_strlit("pdf"); reveal_strlit("png"); reveal_strlit("svg"); reveal_strlit("tar"); reveal_strlit("text/css"); reveal_strlit("text/csv"); reveal_strlit("text/html"); reveal_strlit("text/javascript"); reveal_strlit("text/markdown"); reveal_strlit("text/plain"); reveal_strlit("text/xml"); reveal_strlit("txt"); reveal_strlit("wasm"); reveal_strlit("webp"); reveal_strlit("xml"); reveal_strlit("zip");
            assert("image/svg+xml"@.len() != "text/plain"@.len()); assert("image/svg+xml"@.len() != "text/html"@.len()); assert("image/svg+xml"@.len() != "text/css"@.len()); assert("image/svg+xml"@.len() != "text/javascript"@.len()); assert("image/svg+xml"@.len() != "application/javascript"@.len()); assert("image/svg+xml"@.len() != "text/csv"@.len()); assert("image/svg+xml"@.len() != "text/xml"@.len()); assert("image/svg+xml"@.len() != "application/xml"@.len()); assert("image/svg+xml"@[0] != "text/markdown"@[0]); assert("image/svg+xml"@.len() != "application/json"@.len()); assert("image/svg+xml"@.len() != "application/pdf"@.len()); assert("image/svg+xml"@.len() != "application/zip"@.len()); assert("image/svg+xml"@.len() != "application/gzip"@.len()); assert("image/svg+xml"@.len() != "image/png"@.len()); assert("image/svg+xml"@.len() != "image/jpeg"@.len()); assert("image/svg+xml"@.len() != "image/gif"@.len()); assert("image/svg+xml"@.len() != "image/webp"@.len());
        }
    }
    if mime == "audio/mpeg"@ {
        assert(extension_mime("mp3"@) == Some("audio/mpeg"@)) by {
            reveal_strlit("application/gzip"); reveal_strlit("application/javascript"); reveal_strlit("application/json"); reveal_strlit("application/pdf"); reveal_strlit("application/xml"); reveal_strlit("application/zip"); reveal_strlit("audio/mpeg"); reveal_strlit("bmp"); reveal_strlit("css"); reveal_strlit("csv"); reveal_strlit("gif"); reveal_strlit("gz"); reveal_strlit("gzip"); reveal_strlit("htm"); reveal_strlit("html"); reveal_strlit("ico"); reveal_strlit("image/gif"); reveal_strlit("image/jpeg"); reveal_strlit("image/png"); reveal_strlit("image/svg+xml"); reveal_strlit("image/webp"); reveal_strlit("jpeg"); reveal_strlit("jpg"); reveal_strlit("js"); reveal_strlit("json"); reveal_strlit("markdown"); reveal_strlit("md"); reveal_strlit("mjs"); reveal_strlit("mp3"); reveal_strlit("pdf"); reveal_strlit("png"); reveal_strlit("svg"); reveal_strlit("tar"); reveal_strlit("text/css"); reveal_strlit("text/csv"); reveal_strlit("text/html"); reveal_strlit("text/javascript"); reveal_strlit("text/markdown"); reveal_strlit("text/plain"); reveal_strlit("text/xml"); reveal_strlit("txt"); reveal_strlit("wasm"); reveal_strlit("webp"); reveal_strlit("xml"); reveal_strlit("zip");
            assert("mp3"@[0] != "txt"@[0]); assert("mp3"@.len() != "html"@.len()); assert("mp3"@[0] != "htm"@[0]); assert("mp3"@[0] != "css"@[0]); assert("mp3"@.len() != "js"@.len()); assert("mp3"@[1] != "mjs"@[1]); assert("mp3"@[0] != "csv"@[0]); assert("mp3"@[0] != "xml"@[0]); assert("mp3"@.len() != "md"@.len()); assert("mp3"@.len() != "markdown"@.len()); assert("mp3"@.len() != "json"@.len()); assert("mp3"@[0] != "pdf"@[0]); assert("mp3"@[0] != "zip"@[0]); assert("mp3"@.len() != "gz"@.len()); assert("mp3"@.len() != "gzip"@.len()); assert("mp3"@[0] != "tar"@[0]); assert("mp3"@.len() != "wasm"@.len()); assert("mp3"@[0] != "png"@[0]); assert("mp3"@[0] != "jpg"@[0]); assert("mp3"@.len() != "jpeg"@.len()); assert("mp3"@[0] != "gif"@[0]); assert("mp3"@.len() != "webp"@.len()); assert("mp3"@[0] != "svg"@[0]); assert("mp3"@[0] != "ico"@[0]); assert("mp3"@[0] != "bmp"@[0]);
        }
        assert(mime_extension("audio/mpeg"@) == Some("mp3"@)) by {
            reveal_strlit("application/gzip"); reveal_strlit("application/javascript"); reveal_strlit("application/json"); reveal_strlit("application/pdf"); reveal_strlit("application/xml"); reveal_strlit("application/zip"); reveal_strlit("audio/mpeg"); reveal_strlit("bmp"); reveal_strlit("css"); reveal_strlit("csv"); reveal_strlit("gif"); reveal_strlit("gz"); reveal_strlit("gzip"); reveal_strlit("htm"); reveal_strlit("html"); reveal_strlit("ico"); reveal_strlit("image/gif"); reveal_strlit("image/jpeg"); reveal_strlit("image/png"); reveal_strlit("image/svg+xml"); reveal_strlit("image/webp"); reveal_strlit("jpeg"); reveal_strlit("jpg"); reveal_strlit("js"); reveal_strlit("json"); reveal_strlit("markdown"); reveal_strlit("md"); reveal_strlit("mjs"); reveal_strlit("mp3"); reveal_strlit("pdf"); reveal_strlit("png"); reveal_strlit("svg"); reveal_strlit("tar"); reveal_strlit("text/css"); reveal_strlit("text/csv"); reveal_strlit("text/html"); reveal_strlit("text/javascript"); reveal_strlit("text/markdown"); reveal_strlit("text/plain"); reveal_strlit("text/xml"); reveal_strlit("txt"); reveal_strlit("wasm"); reveal_strlit("webp"); reveal_strlit("xml"); reveal_strlit("zip");
            assert("audio/mpeg"@[0] != "text/plain"@[0]); assert("audio/mpeg"@.len() != "text/html"@.len()); assert("audio/mpeg"@.len() != "text/css"@.len()); assert("audio/mpeg"@.len() != "text/javascript"@.len()); assert("audio/mpeg"@.len() != "application/javascript"@.len()); assert("audio/mpeg"@.len() != "text/csv"@.len()); assert("audio/mpeg"@.len() != "text/xml"@.len()); assert("audio/mpeg"@.len() != "application/xml"@.len()); assert("audio/mpeg"@.len() != "text/markdown"@.len()); assert("audio/mpeg"@.len() != "application/json"@.len()); assert("audio/mpeg"@.len() != "application/pdf"@.len()); assert("audio/mpeg"@.len() != "application/zip"@.len()); assert("audio/mpeg"@.len() != "application/gzip"@.len()); assert("audio/mpeg"@.len() != "image/png"@.len()); assert("audio/mpeg"@[0] != "image/jpeg"@[0]); assert("audio/mpeg"@.len() != "image/gif"@.len()); assert("audio/mpeg"@[0] != "image/webp"@[0]); assert("audio/mpeg"@.len() != "image/svg+xml"@.len());
        }
    }
    if mime == "audio/wav"@ {
        assert(extension_mime("wav"@) == Some("audio/wav"@)) by {
            reveal_strlit("application/gzip"); reveal_strlit("application/javascript"); reveal_strlit("application/json"); reveal_strlit("application/pdf"); reveal_strlit("application/xml"); reveal_strlit("application/zip"); reveal_strlit("audio/mpeg"); reveal_strlit("audio/wav"); reveal_strlit("bmp"); reveal_strlit("css"); reveal_strlit("csv"); reveal_strlit("gif"); reveal_strlit("gz"); reveal_strlit("gzip"); reveal_strlit("htm"); reveal_strlit("html"); reveal_strlit("ico"); reveal_strlit("image/gif"); reveal_strlit("image/jpeg"); reveal_strlit("image/png"); reveal_strlit("image/svg+xml"); reveal_strlit("image/webp"); reveal_strlit("jpeg"); reveal_strlit("jpg"); reveal_strlit("js"); reveal_strlit("json"); reveal_strlit("markdown"); reveal_strlit("md"); reveal_strlit("mjs"); reveal_strlit("mp3"); reveal_strlit("pdf"); reveal_strlit("png"); reveal_strlit("svg"); reveal_strlit("tar"); reveal_strlit("text/css"); reveal_strlit("text/csv"); reveal_strlit("text/html"); reveal_strlit("text/javascript"); reveal_strlit("text/markdown"); reveal_strlit("text/plain"); reveal_strlit("text/xml"); reveal_strlit("txt"); reveal_strlit("wasm"); reveal_strlit("wav"); reveal_strlit("webp"); reveal_strlit("xml"); reveal_strlit("zip");
            assert("wav"@[0] != "txt"@[0]); assert("wav"@.len() != "html"@.len()); assert("wav"@[0] != "htm"@[0]); assert("wav"@[0] != "css"@[0]); assert("wav"@.len() != "js"@.len()); assert("wav"@[0] != "mjs"@[0]); assert("wav"@[0] != "csv"@[0]); assert("wav"@[0] != "xml"@[0]); assert("wav"@.len() != "md"@.len()); assert("wav"@.len() != "markdown"@.len()); assert("wav"@.len() != "json"@.len()); assert("wav"@[0] != "pdf"@[0]); assert("wav"@[0] != "zip"@[0]); assert("wav"@.len() != "gz"@.len()); assert("wav"@.len() != "gzip"@.len()); assert("wav"@[0] != "tar"@[0]); assert("wav"@.len() != "wasm"@.len()); assert("wav"@[0] != "png"@[0]); assert("wav"@[0] != "jpg"@[0]); assert("wav"@.len() != "jpeg"@.len()); assert("wav"@[0] != "gif"@[0]); assert("wav"@.len() != "webp"@.len()); assert("wav"@[0] != "svg"@[0]); assert("wav"@[0] != "ico"@[0]); assert("wav"@[0] != "bmp"@[0]); assert("wav"@[0] != "mp3"@[0]);
        }
        assert(mime_extension("audio/wav"@) == Some("wav"@)) by {
            reveal_strlit("application/gzip"); reveal_strlit("application/javascript"); reveal_strlit("application/json"); reveal_strlit("application/pdf"); reveal_strlit("application/xml"); reveal_strlit("application/zip"); reveal_strlit("audio/mpeg"); reveal_strlit("audio/wav"); reveal_strlit("bmp"); reveal_strlit("css"); reveal_strlit("csv"); reveal_strlit("gif"); reveal_strlit("gz"); reveal_strlit("gzip"); reveal_strlit("htm"); reveal_strlit("html"); reveal_strlit("ico"); reveal_strlit("image/gif"); reveal_strlit("image/jpeg"); reveal_strlit("image/png"); reveal_strlit("image/svg+xml"); reveal_strlit("image/webp"); reveal_strlit("jpeg"); reveal_strlit("jpg"); reveal_strlit("js"); reveal_strlit("json"); reveal_strlit("markdown"); reveal_strlit("md"); reveal_strlit("mjs"); reveal_strlit("mp3"); reveal_strlit("pdf"); reveal_strlit("png"); reveal_strlit("svg"); reveal_strlit("tar"); reveal_strlit("text/css"); reveal_strlit("text/csv"); reveal_strlit("text/html"); reveal_strlit("text/javascript"); reveal_strlit("text/markdown"); reveal_strlit("text/plain"); reveal_strlit("text/xml"); reveal_strlit("txt"); reveal_strlit("wasm"); reveal_strlit("wav"); reveal_strlit("webp"); reveal_strlit("xml"); reveal_strlit("zip");
            assert("audio/wav"@.len() != "text/plain"@.len()); assert("audio/wav"@[0] != "text/html"@[0]); assert("audio/wav"@.len() != "text/css"@.len()); assert("audio/wav"@.len() != "text/javascript"@.len()); assert("audio/wav"@.len() != "application/javascript"@.len()); assert("audio/wav"@.len() != "text/csv"@.len()); assert("audio/wav"@.len() != "text/xml"@.len()); assert("audio/wav"@.len() != "application/xml"@.len()); assert("audio/wav"@.len() != "text/markdown"@.len()); assert("audio/wav"@.len() != "application/json"@.len()); assert("audio/wav"@.len() != "application/pdf"@.len()); assert("audio/wav"@.len() != "application/zip"@.len()); assert("audio/wav"@.len() != "application/gzip"@.len()); assert("audio/wav"@[0] != "image/png"@[0]); assert("audio/wav"@.len() != "image/jpeg"@.len()); assert("audio/wav"@[0] != "image/gif"@[0]); assert("audio/wav"@.len() != "image/webp"@.len()); assert("audio/wav"@.len() != "image/svg+xml"@.len()); assert("audio/wav"@.len() != "audio/mpeg"@.len());
        }
    }
    if mime == "audio/ogg"@ {
        assert(extension_mime("ogg"@) == Some("audio/ogg"@)) by {
            reveal_strlit("application/gzip"); reveal_strlit("application/javascript"); reveal_strlit("application/json"); reveal_strlit("application/pdf"); reveal_strlit("application/xml"); reveal_strlit("application/zip"); reveal_strlit("audio/mpeg"); reveal_strlit("audio/ogg"); reveal_strlit("audio/wav"); reveal_strlit("bmp"); reveal_strlit("css"); reveal_strlit("csv"); reveal_strlit("gif"); reveal_strlit("gz"); reveal_strlit("gzip"); reveal_strlit("htm"); reveal_strlit("html"); reveal_strlit("ico"); reveal_strlit("image/gif"); reveal_strlit("image/jpeg"); reveal_strlit("image/png"); reveal_strlit("image/svg+xml"); reveal_strlit("image/webp"); reveal_strlit("jpeg"); reveal_strlit("jpg"); reveal_strlit("js"); reveal_strlit("json"); reveal_strlit("markdown"); reveal_strlit("md"); reveal_strlit("mjs"); reveal_strlit("mp3"); reveal_strlit("ogg"); reveal_strlit("pdf"); reveal_strlit("png"); reveal_strlit("svg"); reveal_strlit("tar"); reveal_strlit("text/css"); reveal_strlit("text/csv"); reveal_strlit("text/html"); reveal_strlit("text/javascript"); reveal_strlit("text/markdown"); reveal_strlit("text/plain"); reveal_strlit("text/xml"); reveal_strlit("txt"); reveal_strlit("wasm"); reveal_strlit("wav"); reveal_strlit("webp"); reveal_strlit("xml"); reveal_strlit("zip");
            assert("ogg"@[0] != "txt"@[0]); assert("ogg"@.len() != "html"@.len()); assert("ogg"@[0] != "htm"@[0]); assert("ogg"@[0] != "css"@[0]); assert("ogg"@.len() != "js"@.len()); assert("ogg"@[0] != "mjs"@[0]); assert("ogg"@[0] != "csv"@[0]); assert("ogg"@[0] != "xml"@[0]); assert("ogg"@.len() != "md"@.len()); assert("ogg"@.len() != "markdown"@.len()); assert("ogg"@.len() != "json"@.len()); assert("ogg"@[0] != "pdf"@[0]); assert("ogg"@[0] != "zip"@[0]); assert("ogg"@.len() != "gz"@.len()); assert("ogg"@.len() != "gzip"@.len()); assert("ogg"@[0] != "tar"@[0]); assert("ogg"@.len() != "wasm"@.len()); assert("ogg"@[0] != "png"@[0]); assert("ogg"@[0] != "jpg"@[0]); assert("ogg"@.len() != "jpeg"@.len()); assert("ogg"@[0] != "gif"@[0]); assert("ogg"@.len() != "webp"@.len()); assert("ogg"@[0] != "svg"@[0]); assert("ogg"@[0] != "ico"@[0]); assert("ogg"@[0] != "bmp"@[0]); assert("ogg"@[0] != "mp3"@[0]); assert("ogg"@[0] != "wav"@[0]);
        }
        assert(mime_extension("audio/ogg"@) == Some("ogg"@)) by {
            reveal_strlit("application/gzip"); reveal_strlit("application/javascript"); reveal_strlit("application/json"); reveal_strlit("application/pdf"); reveal_strlit("application/xml"); reveal_strlit("application/zip"); reveal_strlit("audio/mpeg"); reveal_strlit("audio/ogg"); reveal_strlit("audio/wav"); reveal_strlit("bmp"); reveal_strlit("css"); reveal_strlit("csv"); reveal_strlit("gif"); reveal_strlit("gz"); reveal_strlit("gzip"); reveal_strlit("htm"); reveal_strlit("html"); reveal_strlit("ico"); reveal_strlit("image/gif"); reveal_strlit("image/jpeg"); reveal_strlit("image/png"); reveal_strlit("image/svg+xml"); reveal_strlit("image/webp"); reveal_strlit("jpeg"); reveal_strlit("jpg"); reveal_strlit("js"); reveal_strlit("json"); reveal_strlit("markdown"); reveal_strlit("md"); reveal_strlit("mjs"); reveal_strlit("mp3"); reveal_strlit("ogg"); reveal_strlit("pdf"); reveal_strlit("png"); reveal_strlit("svg"); reveal_strlit("tar"); reveal_strlit("text/css"); reveal_strlit("text/csv"); reveal_strlit("text/html"); reveal_strlit("text/javascript"); reveal_strlit("text/markdown"); reveal_strlit("text/plain"); reveal_strlit("text/xml"); reveal_strlit("txt"); reveal_strlit("wasm"); reveal_strlit("wav"); reveal_strlit("webp"); reveal_strlit("xml"); reveal_strlit("zip");
            assert("audio/ogg"@.len() != "text/plain"@.len()); assert("audio/ogg"@[0] != "text/html"@[0]); assert("audio/ogg"@.len() != "text/css"@.len()); assert("audio/ogg"@.len() != "text/javascript"@.len()); assert("audio/ogg"@.len() != "application/javascript"@.len()); assert("audio/ogg"@.len() != "text/csv"@.len()); assert("audio/ogg"@.len() != "text/xml"@.len()); assert("audio/ogg"@.len() != "application/xml"@.len()); assert("audio/ogg"@.len() != "text/markdown"@.len()); assert("audio/ogg"@.len() != "application/json"@.len()); assert("audio/ogg"@.len() != "application/pdf"@.len()); assert("audio/ogg"@.len() != "application/zip"@.len()); assert("audio/ogg"@.len() != "application/gzip"@.len()); assert("audio/ogg"@[0] != "image/png"@[0]); assert("audio/ogg"@.len() != "image/jpeg"@.len()); assert("audio/ogg"@[0] != "image/gif"@[0]); assert("audio/ogg"@.len() != "image/webp"@.len()); assert("audio/ogg"@.len() != "image/svg+xml"@.len()); assert("audio/ogg"@.len() != "audio/mpeg"@.len()); assert("audio/ogg"@[6] != "audio/wav"@[6]);
        }
    }
    if mime == "video/mp4"@ {
        assert(extension_mime("mp4"@) == Some("video/mp4"@)) by {
            reveal_strlit("aac"); reveal_strlit("application/gzip"); reveal_strlit("application/javascript"); reveal_strlit("application/json"); reveal_strlit("application/pdf"); reveal_strlit("application/xml"); reveal_strlit("application/zip"); reveal_strlit("audio/mpeg"); reveal_strlit("audio/ogg"); reveal_strlit("audio/wav"); reveal_strlit("bmp"); reveal_strlit("css"); reveal_strlit("csv"); reveal_strlit("flac"); reveal_strlit("gif"); reveal_strlit("gz"); reveal_strlit("gzip"); reveal_strlit("htm"); reveal_strlit("html"); reveal_strlit("ico"); reveal_strlit("image/gif"); reveal_strlit("image/jpeg"); reveal_strlit("image/png"); reveal_strlit("image/svg+xml"); reveal_strlit("image/webp"); reveal_strlit("jpeg"); reveal_strlit("jpg"); reveal_strlit("js"); reveal_strlit("json"); reveal_strlit("markdown"); reveal_strlit("md"); reveal_strlit("mjs"); reveal_strlit("mp3"); reveal_strlit("mp4"); reveal_strlit("ogg"); reveal_strlit("pdf"); reveal_strlit("png"); reveal_strlit("svg"); reveal_strlit("tar"); reveal_strlit("text/css"); reveal_strlit("text/csv"); reveal_strlit("text/html"); reveal_strlit("text/javascript"); reveal_strlit("text/markdown"); reveal_strlit("text/plain"); reveal_strlit("text/xml"); reveal_strlit("txt"); reveal_strlit("video/mp4"); reveal_strlit("wasm"); reveal_strlit("wav"); reveal_strlit("webp"); reveal_strlit("xml"); reveal_strlit("zip");
            assert("mp4"@[0] != "txt"@[0]); assert("mp4"@.len() != "html"@.len()); assert("mp4"@[0] != "htm"@[0]); assert("mp4"@[0] != "css"@[0]); assert("mp4"@.len() != "js"@.len()); assert("mp4"@[1] != "mjs"@[1]); assert("mp4"@[0] != "csv"@[0]); assert("mp4"@[0] != "xml"@[0]); assert("mp4"@.len() != "md"@.len()); assert("mp4"@.len() != "markdown"@.len()); assert("mp4"@.len() != "json"@.len()); assert("mp4"@[0] != "pdf"@[0]); assert("mp4"@[0] != "zip"@[0]); assert("mp4"@.len() != "gz"@.len()); assert("mp4"@.len() != "gzip"@.len()); assert("mp4"@[0] != "tar"@[0]); assert("mp4"@.len() != "wasm"@.len()); assert("mp4"@[0] != "png"@[0]); assert("mp4"@[0] != "jpg"@[0]); assert("mp4"@.len() != "jpeg"@.len()); assert("mp4"@[0] != "gif"@[0]); assert("mp4"@.len() != "webp"@.len()); assert("mp4"@[0] != "svg"@[0]); assert("mp4"@[0] != "ico"@[0]); assert("mp4"@[0] != "bmp"@[0]); assert("mp4"@[2] != "mp3"@[2]); assert("mp4"@[0] != "wav"@[0]); assert("mp4"@[0] != "ogg"@[0]); assert("mp4"@.len() != "flac"@.len()); assert("mp4"@[0] != "aac"@[0]);
        }
        assert(mime_extension("video/mp4"@) == Some("mp4"@)) by {
            reveal_strlit("aac"); reveal_strlit("application/gzip"); reveal_strlit("application/javascript"); reveal_strlit("application/json"); reveal_strlit("application/pdf"); reveal_strlit("application/xml"); reveal_strlit("application/zip"); reveal_strlit("audio/mpeg"); reveal_strlit("audio/ogg"); reveal_strlit("audio/wav"); reveal_strlit("bmp"); reveal_strlit("css"); reveal_strlit("csv"); reveal_strlit("flac"); reveal_strlit("gif"); reveal_strlit("gz"); reveal_strlit("gzip"); reveal_strlit("htm"); reveal_strlit("html"); reveal_strlit("ico"); reveal_strlit("image/gif"); reveal_strlit("image/jpeg"); reveal_strlit("image/png"); reveal_strlit("image/svg+xml"); reveal_strlit("image/webp"); reveal_strlit("jpeg"); reveal_strlit("jpg"); reveal_strlit("js"); reveal_strlit("json"); reveal_strlit("markdown"); reveal_strlit("md"); reveal_strlit("mjs"); reveal_strlit("mp3"); reveal_strlit("mp4"); reveal_strlit("ogg"); reveal_strlit("pdf"); reveal_strlit("png"); reveal_strlit("svg"); reveal_strlit("tar"); reveal_strlit("text/css"); reveal_strlit("text/csv"); reveal_strlit("text/html"); reveal_strlit("text/javascript"); reveal_strlit("text/markdown"); reveal_strlit("text/plain"); reveal_strlit("text/xml"); reveal_strlit("txt"); reveal_strlit("video/mp4"); reveal_strlit("wasm"); reveal_strlit("wav"); reveal_strlit("webp"); reveal_strlit("xml"); reveal_strlit("zip");
            assert("video/mp4"@.len() != "text/plain"@.len()); assert("video/mp4"@[0] != "text/html"@[0]); assert("video/mp4"@.len() != "text/css"@.len()); assert("video/mp4"@.len() != "text/javascript"@.len()); assert("video/mp4"@.len() != "application/javascript"@.len()); assert("video/mp4"@.len() != "text/csv"@.len()); assert("video/mp4"@.len() != "text/xml"@.len()); assert("video/mp4"@.len() != "application/xml"@.len()); assert("video/mp4"@.len() != "text/markdown"@.len()); assert("video/mp4"@.len() != "application/json"@.len()); assert("video/mp4"@.len() != "application/pdf"@.len()); assert("video/mp4"@.len() != "application/zip"@.len()); assert("video/mp4"@.len() != "application/gzip"@.len()); assert("video/mp4"@[0] != "image/png"@[0]); assert("video/mp4"@.len() != "image/jpeg"@.len()); assert("video/mp4"@[0] != "image/gif"@[0]); assert("video/mp4"@.len() != "image/webp"@.len()); assert("video/mp4"@.len() != "image/svg+xml"@.len()); assert("video/mp4"@.len() != "audio/mpeg"@.len()); assert("video/mp4"@[0] != "audio/wav"@[0]); assert("video/mp4"@[0] != "audio/ogg"@[0]);
        }
    }
    if mime == "video/webm"@ {
        assert(extension_mime("webm"@) == Some("video/webm"@)) by {
            reveal_strlit("aac"); reveal_strlit("application/gzip"); reveal_strlit("application/javascript"); reveal_strlit("application/json"); reveal_strlit("application/pdf"); reveal_strlit("application/xml"); reveal_strlit("application/zip"); reveal_strlit("audio/mpeg"); reveal_strlit("audio/ogg"); reveal_strlit("audio/wav"); reveal_strlit("bmp"); reveal_strlit("css"); reveal_strlit("csv"); reveal_strlit("flac"); reveal_strlit("gif"); reveal_strlit("gz"); reveal_strlit("gzip"); reveal_strlit("htm"); reveal_strlit("html"); reveal_strlit("ico"); reveal_strlit("image/gif"); reveal_strlit("image/jpeg"); reveal_strlit("image/png"); reveal_strlit("image/svg+xml"); reveal_strlit("image/webp"); reveal_strlit("jpeg"); reveal_strlit("jpg"); reveal_strlit("js"); reveal_strlit("json"); reveal_strlit("m4v"); reveal_strlit("markdown"); reveal_strlit("md"); reveal_strlit("mjs"); reveal_strlit("mp3"); reveal_strlit("mp4"); reveal_strlit("ogg"); reveal_strlit("pdf"); reveal_strlit("png"); reveal_strlit("svg"); reveal_strlit("tar"); reveal_strlit("text/css"); reveal_strlit("text/csv"); reveal_strlit("text/html"); reveal_strlit("text/javascript"); reveal_strlit("text/markdown"); reveal_strlit("text/plain"); reveal_strlit("text/xml"); reveal_strlit("txt"); reveal_strlit("video/mp4"); reveal_strlit("video/webm"); reveal_strlit("wasm"); reveal_strlit("wav"); reveal_strlit("webm"); reveal_strlit("webp"); reveal_strlit("xml"); reveal_strlit("zip");
            assert("webm"@.len() != "txt"@.len()); assert("webm"@[0] != "html"@[0]); assert("webm"@.len() != "htm"@.len()); assert("webm"@.len() != "css"@.len()); assert("webm"@.len() != "js"@.len()); assert("webm"@.len() != "mjs"@.len()); assert("webm"@.len() != "csv"@.len()); assert("webm"@.len() != "xml"@.len()); assert("webm"@.len() != "md"@.len()); assert("webm"@.len() != "markdown"@.len()); assert("webm"@[0] != "json"@[0]); assert("webm"@.len() != "pdf"@.len()); assert("webm"@.len() != "zip"@.len()); assert("webm"@.len() != "gz"@.len()); assert("webm"@[0] != "gzip"@[0]); assert("webm"@.len() != "tar"@.len()); assert("webm"@[1] != "wasm"@[1]); assert("webm"@.len() != "png"@.len()); assert("webm"@.len() != "jpg"@.len()); assert("webm"@[0] != "jpeg"@[0]); assert("webm"@.len() != "gif"@.len()); assert("webm"@[3] != "webp"@[3]); assert("webm"@.len() != "svg"@.len()); assert("webm"@.len() != "ico"@.len()); assert("webm"@.len() != "bmp"@.len()); assert("webm"@.len() != "mp3"@.len()); assert("webm"@.len() != "wav"@.len()); assert("webm"@.len() != "ogg"@.len()); assert("webm"@[0] != "flac"@[0]); assert("webm"@.len() != "aac"@.len()); assert("webm"@.len() != "mp4"@.len()); assert("webm"@.len() != "m4v"@.len());
        }
        assert(mime_extension("video/webm"@) == Some("webm"@)) by {
            reveal_strlit("aac"); reveal_strlit("application/gzip"); reveal_strlit("application/javascript"); reveal_strlit("application/json"); reveal_strlit("application/pdf"); reveal_strlit("application/xml"); reveal_strlit("application/zip"); reveal_strlit("audio/mpeg"); reveal_strlit("audio/ogg"); reveal_strlit("audio/wav"); reveal_strlit("bmp"); reveal_strlit("css"); reveal_strlit("csv"); reveal_strlit("flac"); reveal_strlit("gif"); reveal_strlit("gz"); reveal_strlit("gzip"); reveal_strlit("htm"); reveal_strlit("html"); reveal_strlit("ico"); reveal_strlit("image/gif"); reveal_strlit("image/jpeg"); reveal_strlit("image/png"); reveal_strlit("image/svg+xml"); reveal_strlit("image/webp"); reveal_strlit("jpeg"); reveal_strlit("jpg"); reveal_strlit("js"); reveal_strlit("json"); reveal_strlit("m4v"); reveal_strlit("markdown"); reveal_strlit("md"); reveal_strlit("mjs"); reveal_strlit("mp3"); reveal_strlit("mp4"); reveal_strlit("ogg"); reveal_strlit("pdf"); reveal_strlit("png"); reveal_strlit("svg"); reveal_strlit("tar"); reveal_strlit("text/css"); reveal_strlit("text/csv"); reveal_strlit("text/html"); reveal_strlit("text/javascript"); reveal_strlit("text/markdown"); reveal_strlit("text/plain"); reveal_strlit("text/xml"); reveal_strlit("txt"); reveal_strlit("video/mp4"); reveal_strlit("video/webm"); reveal_strlit("wasm"); reveal_strlit("wav"); reveal_strlit("webm"); reveal_strlit("webp"); reveal_strlit("xml"); reveal_strlit("zip");
            assert("video/webm"@[0] != "text/plain"@[0]); assert("video/webm"@.len() != "text/html"@.len()); assert("video/webm"@.len() != "text/css"@.len()); assert("video/webm"@.len() != "text/javascript"@.len()); assert("video/webm"@.len() != "application/javascript"@.len()); assert("video/webm"@.len() != "text/csv"@.len()); assert("video/webm"@.len() != "text/xml"@.len()); assert("video/webm"@.len() != "application/xml"@.len()); assert("video/webm"@.len() != "text/markdown"@.len()); assert("video/webm"@.len() != "application/json"@.len()); assert("video/webm"@.len() != "application/pdf"@.len()); assert("video/webm"@.len() != "application/zip"@.len()); assert("video/webm"@.len() != "application/gzip"@.len()); assert("video/webm"@.len() != "image/png"@.len()); assert("video/webm"@[0] != "image/jpeg"@[0]); assert("video/webm"@.len() != "image/gif"@.len()); assert("video/webm"@[0] != "image/webp"@[0]); assert("video/webm"@.len() != "image/svg+xml"@.len()); assert("video/webm"@[0] != "audio/mpeg"@[0]); assert("video/webm"@.len() != "audio/wav"@.len()); assert("video/webm"@.len() != "audio/ogg"@.len()); assert("video/webm"@.len() != "video/mp4"@.len());
        }
    }
}

/// Every type recognised from leading bytes is a known type: it has a usual
/// extension, and that extension looks the type up again.
pub proof fn lemma_sniffed_types_known(b: Seq<u8>)
    ensures
        magic_mime(b) matches Some(m) ==> (mime_extension(m) matches Some(e) && extension_mime(e) == Some(m)),
{
    assert(magic_mime(b) is None || magic_mime(b) == Some("image/png"@) || magic_mime(b) == Some("image/jpeg"@) || magic_mime(b) == Some("image/gif"@) || magic_mime(b) == Some("image/webp"@) || magic_mime(b) == Some("application/pdf"@) || magic_mime(b) == Some("application/zip"@) || magic_mime(b) == Some("application/gzip"@) || magic_mime(b) == Some("audio/mpeg"@) || magic_mime(b) == Some("audio/wav"@) || magic_mime(b) == Some("video/mp4"@) || magic_mime(b) == Some("video/webm"@));
    if magic_mime(b) == Some("image/png"@) {
        assert(mime_extension("image/png"@) == Some("png"@)) by {
            reveal_strlit("application/gzip"); reveal_strlit("application/javascript"); reveal_strlit("application/json"); reveal_strlit("application/pdf"); reveal_strlit("application/xml"); reveal_strlit("application/zip"); reveal_strlit("image/png"); reveal_strlit("png"); reveal_strlit("text/css"); reveal_strlit("text/csv"); reveal_strlit("text/html"); reveal_strlit("text/javascript"); reveal_strlit("text/markdown"); reveal_strlit("text/plain"); reveal_strlit("text/xml");
            assert("image/png"@.len() != "text/plain"@.len()); assert("image/png"@[0] != "text/html"@[0]); assert("image/png"@.len() != "text/css"@.len()); assert("image/png"@.len() != "text/javascript"@.len()); assert("image/png"@.len() != "application/javascript"@.len()); assert("image/png"@.len() != "text/csv"@.len()); assert("image/png"@.len() != "text/xml"@.len()); assert("image/png"@.len() != "application/xml"@.len()); assert("image/png"@.len() != "text/markdown"@.len()); assert("image/png"@.len() != "application/json"@.len()); assert("image/png"@.len() != "application/pdf"@.len()); assert("image/png"@.len() != "application/zip"@.len()); assert("image/png"@.len() != "application/gzip"@.len());
        }
        reveal_strlit("application/javascript");
        reveal_strlit("application/xml");
        reveal_strlit("image/png");
        assert("image/png"@.len() != "application/javascript"@.len());
        assert("image/png"@.len() != "application/xml"@.len());
        lemma_extension_tables_agree("image/png"@);
    }
    if magic_mime(b) == Some("image/jpeg"@) {
        assert(mime_extension("image/jpeg"@) == Some("jpg"@)) by {
            reveal_strlit("application/gzip"); reveal_strlit("application/javascript"); reveal_strlit("application/json"); reveal_strlit("application/pdf"); reveal_strlit("application/xml"); reveal_strlit("application/zip"); reveal_strlit("image/jpeg"); reveal_strlit("image/png"); reveal_strlit("jpg"); reveal_strlit("text/css"); reveal_strlit("text/csv"); reveal_strlit("text/html"); reveal_strlit("text/javascript"); reveal_strlit("text/markdown"); reveal_strlit("text/plain"); reveal_strlit("text/xml");
            assert("image/jpeg"@[0] != "text/plain"@[0]); assert("image/jpeg"@.len() != "text/html"@.len()); assert("image/jpeg"@.len() != "text/css"@.len()); assert("image/jpeg"@.len() != "text/javascript"@.len()); assert("image/jpeg"@.len() != "application/javascript"@.len()); assert("image/jpeg"@.len() != "text/csv"@.len()); assert("image/jpeg"@.len() != "text/xml"@.len()); assert("image/jpeg"@.len() != "application/xml"@.len()); assert("image/jpeg"@.len() != "text/markdown"@.len()); assert("image/jpeg"@.len() != "application/json"@.len()); assert("image/jpeg"@.len() != "application/pdf"@.len()); assert("image/jpeg"@.len() != "application/zip"@.len()); assert("image/jpeg"@.len() != "application/gzip"@.len()); assert("image/jpeg"@.len() != "image/png"@.len());
        }
        reveal_strlit("application/javascript");
        reveal_strlit("application/xml");
        reveal_strlit("image/jpeg");
        assert("image/jpeg"@.len() != "application/javascript"@.len());
        assert("image/jpeg"@.len() != "application/xml"@.len());
        lemma_extension_tables_agree("image/jpeg"@);
    }
    if magic_mime(b) == Some("image/gif"@) {
        assert(mime_extension("image/gif"@) == Some("gif"@)) by {
            reveal_strlit("application/gzip"); reveal_strlit("application/javascript"); reveal_strlit("application/json"); reveal_strlit("application/pdf"); reveal_strlit("application/xml"); reveal_strlit("application/zip"); reveal_strlit("gif"); reveal_strlit("image/gif"); reveal_strlit("image/jpeg"); reveal_strlit("image/png"); reveal_strlit("text/css"); reveal_strlit("text/csv"); reveal_strlit("text/html"); reveal_strlit("text/javascript"); reveal_strlit("text/markdown"); reveal_strlit("text/plain"); reveal_strlit("text/xml");
            assert("image/gif"@.len() != "text/plain"@.len()); assert("image/gif"@[0] != "text/html"@[0]); assert("image/gif"@.len() != "text/css"@.len()); assert("image/gif"@.len() != "text/javascript"@.len()); assert("image/gif"@.len() != "application/javascript"@.len()); assert("image/gif"@.len() != "text/csv"@.len()); assert("image/gif"@.len() != "text/xml"@.len()); assert("image/gif"@.len() != "application/xml"@.len()); assert("image/gif"@.len() != "text/markdown"@.len()); assert("image/gif"@.len() != "application/json"@.len()); assert("image/gif"@.len() != "application/pdf"@.len()); assert("image/gif"@.len() != "application/zip"@.len()); assert("image/gif"@.len() != "application/gzip"@.len()); assert("image/gif"@[6] != "image/png"@[6]); assert("image/gif"@.len() != "image/jpeg"@.len());
        }
        reveal_strlit("application/javascript");
        reveal_strlit("application/xml");
        reveal_strlit("image/gif");
        assert("image/gif"@.len() != "application/javascript"@.len());
        assert("image/gif"@.len() != "application/xml"@.len());
        lemma_extension_tables_agree("image/gif"@);
    }
    if magic_mime(b) == Some("image/webp"@) {
        assert(mime_extension("image/webp"@) == Some("webp"@)) by {
            reveal_strlit("application/gzip"); reveal_strlit("application/javascript"); reveal_strlit("application/json"); reveal_strlit("application/pdf"); reveal_strlit("application/xml"); reveal_strlit("application/zip"); reveal_strlit("image/gif"); reveal_strlit("image/jpeg"); reveal_strlit("image/png"); reveal_strlit("image/webp"); reveal_strlit("text/css"); reveal_strlit("text/csv"); reveal_strlit("text/html"); reveal_strlit("text/javascript"); reveal_strlit("text/markdown"); reveal_strlit("text/plain"); reveal_strlit("text/xml"); reveal_strlit("webp");
            assert("image/webp"@[0] != "text/plain"@[0]); assert("image/webp"@.len() != "text/html"@.len()); assert("image/webp"@.len() != "text/css"@.len()); assert("image/webp"@.len() != "text/javascript"@.len()); assert("image/webp"@.len() != "application/javascript"@.len()); assert("image/webp"@.len() != "text/csv"@.len()); assert("image/webp"@.len() != "text/xml"@.len()); assert("image/webp"@.len() != "application/xml"@.len()); assert("image/webp"@.len() != "text/markdown"@.len()); assert("image/webp"@.len() != "application/json"@.len()); assert("image/webp"@.len() != "application/pdf"@.len()); assert("image/webp"@.len() != "application/zip"@.len()); assert("image/webp"@.len() != "application/gzip"@.len()); assert("image/webp"@.len() != "image/png"@.len()); assert("image/webp"@[6] != "image/jpeg"@[6]); assert("image/webp"@.len() != "image/gif"@.len());
        }
        reveal_strlit("application/javascript");
        reveal_strlit("application/xml");
        reveal_strlit("image/webp");
        assert("image/webp"@.len() != "application/javascript"@.len());
        assert("image/webp"@.len() != "application/xml"@.len());
        lemma_extension_tables_agree("image/webp"@);
    }
    if magic_mime(b) == Some("application/pdf"@) {
        assert(mime_extension("application/pdf"@) == Some("pdf"@)) by {
            reveal_strlit("application/javascript"); reveal_strlit("application/json"); reveal_strlit("application/pdf"); reveal_strlit("application/xml"); reveal_strlit("pdf"); reveal_strlit("text/css"); reveal_strlit("text/csv"); reveal_strlit("text/html"); reveal_strlit("text/javascript"); reveal_strlit("text/markdown"); reveal_strlit("text/plain"); reveal_strlit("text/xml");
            assert("application/pdf"@.len() != "text/plain"@.len()); assert("application/pdf"@.len() != "text/html"@.len()); assert("application/pdf"@.len() != "text/css"@.len()); assert("application/pdf"@[0] != "text/javascript"@[0]); assert("application/pdf"@.len() != "application/javascript"@.len()); assert("application/pdf"@.len() != "text/csv"@.len()); assert("application/pdf"@.len() != "text/xml"@.len()); assert("application/pdf"@[12] != "application/xml"@[12]); assert("application/pdf"@.len() != "text/markdown"@.len()); assert("application/pdf"@.len() != "application/json"@.len());
        }
        reveal_strlit("application/javascript");
        reveal_strlit("application/xml");
        reveal_strlit("application/pdf");
        assert("application/pdf"@.len() != "application/javascript"@.len());
        assert("application/pdf"@[12] != "application/xml"@[12]);
        lemma_extension_tables_agree("application/pdf"@);
    }
    if magic_mime(b) == Some("application/zip"@) {
        assert(mime_extension("application/zip"@) == Some("zip"@)) by {
            reveal_strlit("application/javascript"); reveal_strlit("application/json"); reveal_strlit("application/pdf"); reveal_strlit("application/xml"); reveal_strlit("application/zip"); reveal_strlit("text/css"); reveal_strlit("text/csv"); reveal_strlit("text/html"); reveal_strlit("text/javascript"); reveal_strlit("text/markdown"); reveal_strlit("text/plain"); reveal_strlit("text/xml"); reveal_strlit("zip");
            assert("application/zip"@.len() != "text/plain"@.len()); assert("application/zip"@.len() != "text/html"@.len()); assert("application/zip"@.len() != "text/css"@.len()); assert("application/zip"@[0] != "text/javascript"@[0]); assert("application/zip"@.len() != "application/javascript"@.len()); assert("application/zip"@.len() != "text/csv"@.len()); assert("application/zip"@.len() != "text/xml"@.len()); assert("application/zip"@[12] != "application/xml"@[12]); assert("application/zip"@.len() != "text/markdown"@.len()); assert("application/zip"@.len() != "application/json"@.len()); assert("application/zip"@[12] != "application/pdf"@[12]);
        }
        reveal_strlit("application/javascript");
        reveal_strlit("application/xml");
        reveal_strlit("application/zip");
        assert("application/zip"@.len() != "application/javascript"@.len());
        assert("application/zip"@[12] != "application/xml"@[12]);
        lemma_extension_tables_agree("application/zip"@);
    }
    if magic_mime(b) == Some("application/gzip"@) {
        assert(mime_extension("application/gzip"@) == Some("gz"@)) by {
            reveal_strlit("application/gzip"); reveal_strlit("application/javascript"); reveal_strlit("application/json"); reveal_strlit("application/pdf"); reveal_strlit("application/xml"); reveal_strlit("application/zip"); reveal_strlit("gz"); reveal_strlit("text/css"); reveal_strlit("text/csv"); reveal_strlit("text/html"); reveal_strlit("text/javascript"); reveal_strlit("text/markdown"); reveal_strlit("text/plain"); reveal_strlit("text/xml");
            assert("application/gzip"@.len() != "text/plain"@.len()); assert("application/gzip"@.len() != "text/html"@.len()); assert("application/gzip"@.len() != "text/css"@.len()); assert("application/gzip"@.len() != "text/javascript"@.len()); assert("application/gzip"@.len() != "application/javascript"@.len()); assert("application/gzip"@.len() != "text/csv"@.len()); assert("application/gzip"@.len() != "text/xml"@.len()); assert("application/gzip"@.len() != "application/xml"@.len()); assert("application/gzip"@.len() != "text/markdown"@.len()); assert("application/gzip"@[12] != "application/json"@[12]); assert("application/gzip"@.len() != "application/pdf"@.len()); assert("application/gzip"@.len() != "application/zip"@.len());
        }
        reveal_strlit("application/javascript");
        reveal_strlit("application/xml");
        reveal_strlit("application/gzip");
        assert("application/gzip"@.len() != "application/javascript"@.len());
        assert("application/gzip"@.len() != "application/xml"@.len());
        lemma_extension_tables_agree("application/gzip"@);
    }
    if magic_mime(b) == Some("audio/mpeg"@) {
        assert(mime_extension("audio/mpeg"@) == Some("mp3"@)) by {
            reveal_strlit("application/gzip"); reveal_strlit("application/javascript"); reveal_strlit("application/json"); reveal_strlit("application/pdf"); reveal_strlit("application/xml"); reveal_strlit("application/zip"); reveal_strlit("audio/mpeg"); reveal_strlit("image/gif"); reveal_strlit("image/jpeg"); reveal_strlit("image/png"); reveal_strlit("image/svg+xml"); reveal_strlit("image/webp"); reveal_strlit("mp3"); reveal_strlit("text/css"); reveal_strlit("text/csv"); reveal_strlit("text/html"); reveal_strlit("text/javascript"); reveal_strlit("text/markdown"); reveal_strlit("text/plain"); reveal_strlit("text/xml");
            assert("audio/mpeg"@[0] != "text/plain"@[0]); assert("audio/mpeg"@.len() != "text/html"@.len()); assert("audio/mpeg"@.len() != "text/css"@.len()); assert("audio/mpeg"@.len() != "text/javascript"@.len()); assert("audio/mpeg"@.len() != "application/javascript"@.len()); assert("audio/mpeg"@.len() != "text/csv"@.len()); assert("audio/mpeg"@.len() != "text/xml"@.len()); assert("audio/mpeg"@.len() != "application/xml"@.len()); assert("audio/mpeg"@.len() != "text/markdown"@.len()); assert("audio/mpeg"@.len() != "application/json"@.len()); assert("audio/mpeg"@.len() != "application/pdf"@.len()); assert("audio/mpeg"@.len() != "application/zip"@.len()); assert("audio/mpeg"@.len() != "application/gzip"@.len()); assert("audio/mpeg"@.len() != "image/png"@.len()); assert("audio/mpeg"@[0] != "image/jpeg"@[0]); assert("audio/mpeg"@.len() != "image/gif"@.len()); assert("audio/mpeg"@[0] != "image/webp"@[0]); assert("audio/mpeg"@.len() != "image/svg+xml"@.len());
        }
        reveal_strlit("application/javascript");
        reveal_strlit("application/xml");
        reveal_strlit("audio/mpeg");
        assert("audio/mpeg"@.len() != "application/javascript"@.len());
        assert("audio/mpeg"@.len() != "application/xml"@.len());
        lemma_extension_tables_agree("audio/mpeg"@);
    }
    if magic_mime(b) == Some("audio/wav"@) {
        assert(mime_extension("audio/wav"@) == Some("wav"@)) by {
            reveal_strlit("application/gzip"); reveal_strlit("application/javascript"); reveal_strlit("application/json"); reveal_strlit("application/pdf"); reveal_strlit("application/xml"); reveal_strlit("application/zip"); reveal_strlit("audio/mpeg"); reveal_strlit("audio/wav"); reveal_strlit("image/gif"); reveal_strlit("image/jpeg"); reveal_strlit("image/png"); reveal_strlit("image/svg+xml"); reveal_strlit("image/webp"); reveal_strlit("text/css"); reveal_strlit("text/csv"); reveal_strlit("text/html"); reveal_strlit("text/javascript"); reveal_strlit("text/markdown"); reveal_strlit("text/plain"); reveal_strlit("text/xml"); reveal_strlit("wav");
            assert("audio/wav"@.len() != "text/plain"@.len()); assert("audio/wav"@[0] != "text/html"@[0]); assert("audio/wav"@.len() != "text/css"@.len()); assert("audio/wav"@.len() != "text/javascript"@.len()); assert("audio/wav"@.len() != "application/javascript"@.len()); assert("audio/wav"@.len() != "text/csv"@.len()); assert("audio/wav"@.len() != "text/xml"@.len()); assert("audio/wav"@.len() != "application/xml"@.len()); assert("audio/wav"@.len() != "text/markdown"@.len()); assert("audio/wav"@.len() != "application/json"@.len()); assert("audio/wav"@.len() != "application/pdf"@.len()); assert("audio/wav"@.len() != "application/zip"@.len()); assert("audio/wav"@.len() != "application/gzip"@.len()); assert("audio/wav"@[0] != "image/png"@[0]); assert("audio/wav"@.len() != "image/jpeg"@.len()); assert("audio/wav"@[0] != "image/gif"@[0]); assert("audio/wav"@.len() != "image/webp"@.len()); assert("audio/wav"@.len() != "image/svg+xml"@.len()); assert("audio/wav"@.len() != "audio/mpeg"@.len());
        }
        reveal_strlit("application/javascript");
        reveal_strlit("application/xml");
        reveal_strlit("audio/wav");
        assert("audio/wav"@.len() != "application/javascript"@.len());
        assert("audio/wav"@.len() != "application/xml"@.len());
        lemma_extension_tables_agree("audio/wav"@);
    }
    if magic_mime(b) == Some("video/mp4"@) {
        assert(mime_extension("video/mp4"@) == Some("mp4"@)) by {
            reveal_strlit("application/gzip"); reveal_strlit("application/javascript"); reveal_strlit("application/json"); reveal_strlit("application/pdf"); reveal_strlit("application/xml"); reveal_strlit("application/zip"); reveal_strlit("audio/mpeg"); reveal_strlit("audio/ogg"); reveal_strlit("audio/wav"); reveal_strlit("image/gif"); reveal_strlit("image/jpeg"); reveal_strlit("image/png"); reveal_strlit("image/svg+xml"); reveal_strlit("image/webp"); reveal_strlit("mp4"); reveal_strlit("text/css"); reveal_strlit("text/csv"); reveal_strlit("text/html"); reveal_strlit("text/javascript"); reveal_strlit("text/markdown"); reveal_strlit("text/plain"); reveal_strlit("text/xml"); reveal_strlit("video/mp4");
            assert("video/mp4"@.len() != "text/plain"@.len()); assert("video/mp4"@[0] != "text/html"@[0]); assert("video/mp4"@.len() != "text/css"@.len()); assert("video/mp4"@.len() != "text/javascript"@.len()); assert("video/mp4"@.len() != "application/javascript"@.len()); assert("video/mp4"@.len() != "text/csv"@.len()); assert("video/mp4"@.len() != "text/xml"@.len()); assert("video/mp4"@.len() != "application/xml"@.len()); assert("video/mp4"@.len() != "text/markdown"@.len()); assert("video/mp4"@.len() != "application/json"@.len()); assert("video/mp4"@.len() != "application/pdf"@.len()); assert("video/mp4"@.len() != "application/zip"@.len()); assert("video/mp4"@.len() != "application/gzip"@.len()); assert("video/mp4"@[0] != "image/png"@[0]); assert("video/mp4"@.len() != "image/jpeg"@.len()); assert("video/mp4"@[0] != "image/gif"@[0]); assert("video/mp4"@.len() != "image/webp"@.len()); assert("video/mp4"@.len() != "image/svg+xml"@.len()); assert("video/mp4"@.len() != "audio/mpeg"@.len()); assert("video/mp4"@[0] != "audio/wav"@[0]); assert("video/mp4"@[0] != "audio/ogg"@[0]);
        }
        reveal_strlit("application/javascript");
        reveal_strlit("application/xml");
        reveal_strlit("video/mp4");
        assert("video/mp4"@.len() != "application/javascript"@.len());
        assert("video/mp4"@.len() != "application/xml"@.len());
        lemma_extension_tables_agree("video/mp4"@);
    }
    if magic_mime(b) == Some("video/webm"@) {
        assert(mime_extension("video/webm"@) == Some("webm"@)) by {
            reveal_strlit("application/gzip"); reveal_strlit("application/javascript"); reveal_strlit("application/json"); reveal_strlit("application/pdf"); reveal_strlit("application/xml"); reveal_strlit("application/zip"); reveal_strlit("audio/mpeg"); reveal_strlit("audio/ogg"); reveal_strlit("audio/wav"); reveal_strlit("image/gif"); reveal_strlit("image/jpeg"); reveal_strlit("image/png"); reveal_strlit("image/svg+xml"); reveal_strlit("image/webp"); reveal_strlit("text/css"); reveal_strlit("text/csv"); reveal_strlit("text/html"); reveal_strlit("text/javascript"); reveal_strlit("text/markdown"); reveal_strlit("text/plain"); reveal_strlit("text/xml"); reveal_strlit("video/mp4"); reveal_strlit("video/webm"); reveal_strlit("webm");
            assert("video/webm"@[0] != "text/plain"@[0]); assert("video/webm"@.len() != "text/html"@.len()); assert("video/webm"@.len() != "text/css"@.len()); assert("video/webm"@.len() != "text/javascript"@.len()); assert("video/webm"@.len() != "application/javascript"@.len()); assert("video/webm"@.len() != "text/csv"@.len()); assert("video/webm"@.len() != "text/xml"@.len()); assert("video/webm"@.len() != "application/xml"@.len()); assert("video/webm"@.len() != "text/markdown"@.len()); assert("video/webm"@.len() != "application/json"@.len()); assert("video/webm"@.len() != "application/pdf"@.len()); assert("video/webm"@.len() != "application/zip"@.len()); assert("video/webm"@.len() != "application/gzip"@.len()); assert("video/webm"@.len() != "image/png"@.len()); assert("video/webm"@[0] != "image/jpeg"@[0]); assert("video/webm"@.len() != "image/gif"@.len()); assert("video/webm"@[0] != "image/webp"@[0]); assert("video/webm"@.len() != "image/svg+xml"@.len()); assert("video/webm"@[0] != "audio/mpeg"@[0]); assert("video/webm"@.len() != "audio/wav"@.len()); assert("video/webm"@.len() != "audio/ogg"@.len()); assert("video/webm"@.len() != "video/mp4"@.len());
        }
        reveal_strlit("application/javascript");
        reveal_strlit("application/xml");
        reveal_strlit("video/webm");
        assert("video/webm"@.len() != "application/javascript"@.len());
        assert("video/webm"@.len() != "application/xml"@.len());
        lemma_extension_tables_agree("video/webm"@);
    }
}

/// The MIME type that an ASCII extension looks up, after its leading dots
/// and with capitals taken as small letters.
pub open spec fn ascii_extension_mime(ext: Seq<char>) -> Option<Seq<char>> {
    extension_mime(ascii_lower(drop_leading_dots(ext)))
}

/// Errors of MIME handling.
#[derive(Debug, Clone, PartialEq, Eq)]
pub enum MimeError {
    /// Text that is not `type/subtype`.
    Invalid(String),
    /// An extension with no known type.
    UnknownExtension(String),
}

impl MimeError {
    /// The error's description.
    pub fn message(&self) -> (r: String)
        ensures
            r@ == match self {
                MimeError::Invalid(s) => "Invalid MIME type: "@ + s@,
                MimeError::UnknownExtension(s) => "Unknown extension: "@ + s@,
            },
    {
        let mut out = String::new();
        match self {
            MimeError::Invalid(s) => {
                string_push_str(&mut out, "Invalid MIME type: ");
                string_push_str(&mut out, s.as_str());
            },
            MimeError::UnknownExtension(s) => {
                string_push_str(&mut out, "Unknown extension: ");
                string_push_str(&mut out, s.as_str());
            },
        }
        out
    }
}

/// What a MIME type holds: lowercased type and subtype, the suffix after the
/// last `+` of the subtype, and the parameters in first-set order.
pub struct MimeView {
    pub type_: Seq<char>,
    pub subtype: Seq<char>,
    pub suffix: Option<Seq<char>>,
    pub params: Seq<(Seq<char>, Seq<char>)>,
}

/// The parameter that one `;`-separated piece sets: a key, lowercased, and
/// a value without surrounding quotes; none where the piece has no `=`.
pub open spec fn param_of(piece: Seq<char>) -> Option<(Seq<char>, Seq<char>)> {
    let t = trim(piece);
    match find_first(t, '=') {
        Some(e) => Some(
            (
                unicode_lowercase(trim(t.subrange(0, e))),
                strip(trim(t.subrange(e + 1, t.len() as int)), true),
            ),
        ),
        None => None,
    }
}

/// The parameters that the pieces set, in order.
pub open spec fn params_of(pieces: Seq<Seq<char>>) -> Seq<(Seq<char>, Seq<char>)>
    decreases pieces.len(),
{
    if pieces.len() == 0 {
        Seq::empty()
    } else {
        let ps = params_of(pieces.drop_last());
        match param_of(pieces.last()) {
            Some(kv) => put_param(ps, kv.0, kv.1),
            None => ps,
        }
    }
}

/// What `MimeType::parse` reads from `s`; `None` where `s` (trimmed, up to
/// its first `;`) has no `/`.
pub open spec fn parse_mime(s: Seq<char>) -> Option<MimeView> {
    let t = trim(s);
    let main = match find_first(t, ';') {
        Some(p) => t.subrange(0, p),
        None => t,
    };
    let m = trim(main);
    match find_first(m, '/') {
        None => None,
        Some(q) => {
            let full = unicode_lowercase(trim(m.subrange(q + 1, m.len() as int)));
            Some(
                MimeView {
                    type_: unicode_lowercase(trim(m.subrange(0, q))),
                    subtype: match find_last(full, '+') {
                        Some(r) => full.subrange(0, r),
                        None => full,
                    },
                    suffix: match find_last(full, '+') {
                        Some(r) => Some(full.subrange(r + 1, full.len() as int)),
                        None => None,
                    },
                    params: match find_first(t, ';') {
                        Some(p) => params_of(split_on(t.subrange(p + 1, t.len() as int), ';')),
                        None => Seq::empty(),
                    },
                },
            )
        },
    }
}

/// `type/subtype`, with `+suffix` when there is one.
pub open spec fn essence_of(m: MimeView) -> Seq<char> {
    match m.suffix {
        Some(x) => m.type_ + "/"@ + m.subtype + "+"@ + x,
        None => m.type_ + "/"@ + m.subtype,
    }
}

/// `; key=value` for each parameter, in order.
pub open spec fn params_text(ps: Seq<(Seq<char>, Seq<char>)>) -> Seq<char>
    decreases ps.len(),
{
    if ps.len() == 0 {
        Seq::empty()
    } else {
        params_text(ps.drop_last()) + "; "@ + ps.last().0 + "="@ + ps.last().1
    }
}

/// A MIME type: `type/subtype[+suffix]` with parameters.
#[derive(Debug, Clone, PartialEq, Eq)]
pub struct MimeType {
    pub type_: String,
    pub subtype: String,
    pub suffix: Option<String>,
    /// Parameters in the order they were first set; no key twice.
    pub params: Vec<(String, String)>,
}

impl View for MimeType {
    type V = MimeView;

    open spec fn view(&self) -> MimeView {
        MimeView {
            type_: self.type_@,
            subtype: self.subtype@,
            suffix: match self.suffix {
                Some(x) => Some(x@),
                None => None,
            },
            params: param_views(self.params@),
        }
    }
}

/// The parameters set by the `;`-separated pieces of `chars[lo..hi]`.
fn parse_params(chars: &Vec<char>, lo: usize, hi: usize) -> (r: Vec<(String, String)>)
    requires
        lo <= hi <= chars@.len(),
    ensures
        param_views(r@) == params_of(split_on(chars@.subrange(lo as int, hi as int), ';')),
        crate::multimap::distinct_keys(param_views(r@)),
{
    let ghost cs = chars@;
    let ghost pieces = split_on(cs.subrange(lo as int, hi as int), ';');
    let ranges = split_ranges(chars, lo, hi, ';');
    let mut params: Vec<(String, String)> = Vec::new();
    assert(param_views(params@) =~= Seq::<(Seq<char>, Seq<char>)>::empty());
    let mut k: usize = 0;
    assert(pieces.subrange(0, 0) =~= Seq::<Seq<char>>::empty());
    while k < ranges.len()
        invariant
            cs == chars@,
            ranges@.len() == pieces.len(),
            forall|j: int|
                0 <= j < ranges@.len() ==> 0 <= (#[trigger] ranges@[j]).0 <= ranges@[j].1 <= cs.len()
                    && cs.subrange(ranges@[j].0 as int, ranges@[j].1 as int) == pieces[j],
            k <= ranges@.len(),
            param_views(params@) == params_of(pieces.subrange(0, k as int)),
            crate::multimap::distinct_keys(param_views(params@)),
        decreases ranges@.len() - k,
    {
        let (plo, phi) = ranges[k];
        let ghost piece = pieces[k as int];
        let (x, y) = strip_range(chars, plo, phi, false);
        proof {
            assert(pieces.subrange(0, k + 1).drop_last() =~= pieces.subrange(0, k as int));
            assert(pieces.subrange(0, k + 1).last() == piece);
        }
        match find_in_range(chars, x, y, '=') {
            Some(e) => {
                proof {
                    lemma_subrange_of_subrange(cs, x as int, y as int, 0, e - x);
                    lemma_subrange_of_subrange(cs, x as int, y as int, e - x + 1, y - x);
                }
                let (ka, kb) = strip_range(chars, x, e, false);
                let key_raw = string_of_range(chars, ka, kb);
                let key = str_to_lowercase(key_raw.as_str());
                let (va, vb) = strip_range(chars, e + 1, y, false);
                let (wa, wb) = strip_range(chars, va, vb, true);
                let value = string_of_range(chars, wa, wb);
                assert(param_of(piece) == Some((key@, value@)));
                put_param_exec(&mut params, key, value);
            },
            None => {
                assert(param_of(piece) is None);
            },
        }
        k = k + 1;
    }
    assert(pieces.subrange(0, k as int) =~= pieces);
    params
}

impl MimeType {
    /// A MIME type with no suffix and no parameters; both parts lowercased.
    pub fn new(type_: &str, subtype: &str) -> (r: MimeType)
        ensures
            r@ == (MimeView {
                type_: unicode_lowercase(type_@),
                subtype: unicode_lowercase(subtype@),
                suffix: None,
                params: Seq::empty(),
            }),
    {
        let r = MimeType {
            type_: str_to_lowercase(type_),
            subtype: str_to_lowercase(subtype),
            suffix: None,
            params: Vec::new(),
        };
        assert(r@.params =~= Seq::<(Seq<char>, Seq<char>)>::empty());
        r
    }

    /// Read a content type such as `text/html; charset=utf-8`. Fails with
    /// `Invalid` (holding the trimmed text) where the part before the first
    /// `;` has no `/`.
    #[verifier::rlimit(30)]
    pub fn parse(s: &str) -> (r: Result<MimeType, MimeError>)
        ensures
            match r {
                Ok(m) => parse_mime(s@) == Some(m@) && crate::multimap::distinct_keys(m@.params),
                Err(e) => parse_mime(s@) is None && (e matches MimeError::Invalid(t) && t@ == trim(s@)),
            },
    {
        let chars = chars_of(s);
        let n = chars.len();
        let ghost cs = chars@;
        proof {
            assert(cs.subrange(0, n as int) =~= s@);
        }
        let (a, b) = strip_range(&chars, 0, n, false);
        let ghost t = cs.subrange(a as int, b as int);
        let semi = find_in_range(&chars, a, b, ';');
        let main_hi = match semi {
            Some(p) => p,
            None => b,
        };
        proof {
            lemma_subrange_of_subrange(cs, a as int, b as int, 0, main_hi - a);
            assert(t.subrange(0, t.len() as int) =~= t);
        }
        let ghost main = cs.subrange(a as int, main_hi as int);
        assert(main == match find_first(t, ';') {
            Some(p) => t.subrange(0, p),
            None => t,
        });
        let (ma, mb) = strip_range(&chars, a, main_hi, false);
        let ghost m = cs.subrange(ma as int, mb as int);
        let q = match find_in_range(&chars, ma, mb, '/') {
            Some(q) => q,
            None => {
                return Err(MimeError::Invalid(string_of_range(&chars, a, b)));
            },
        };
        proof {
            lemma_subrange_of_subrange(cs, ma as int, mb as int, 0, q - ma);
            lemma_subrange_of_subrange(cs, ma as int, mb as int, q - ma + 1, mb - ma);
        }
        let (ta, tb) = strip_range(&chars, ma, q, false);
        let type_raw = string_of_range(&chars, ta, tb);
        let type_ = str_to_lowercase(type_raw.as_str());
        let (sa, sb) = strip_range(&chars, q + 1, mb, false);
        let sub_raw = string_of_range(&chars, sa, sb);
        let full = str_to_lowercase(sub_raw.as_str());
        let full_chars = chars_of(full.as_str());
        let fl = full_chars.len();
        proof {
            assert(full_chars@.subrange(0, fl as int) =~= full@);
        }
        let ghost fv = full@;
        let plus = rfind_in_range(&full_chars, 0, fl, '+');
        let (subtype, suffix) = match plus {
            Some(r) => {
                (string_of_range(&full_chars, 0, r), Some(string_of_range(&full_chars, r + 1, fl)))
            },
            None => (full, None),
        };
        let mut params: Vec<(String, String)> = Vec::new();
        assert(param_views(params@) =~= Seq::<(Seq<char>, Seq<char>)>::empty());
        match semi {
            Some(p) => {
                proof {
                    lemma_subrange_of_subrange(cs, a as int, b as int, p - a + 1, b - a);
                }
                params = parse_params(&chars, p + 1, b);
            },
            None => {},
        }
        let r = MimeType { type_, subtype, suffix, params };
        assert(parse_mime(s@) == Some(r@));
        Ok(r)
    }
}

impl MimeType {
    /// `type/subtype`, with `+suffix` when there is one.
    pub fn essence(&self) -> (r: String)
        ensures
            r@ == essence_of(self@),
    {
        let mut out = String::new();
        string_push_str(&mut out, self.type_.as_str());
        string_push_str(&mut out, "/");
        string_push_str(&mut out, self.subtype.as_str());
        match &self.suffix {
            Some(x) => {
                string_push_str(&mut out, "+");
                string_push_str(&mut out, x.as_str());
            },
            None => {},
        }
        assert(out@ =~= essence_of(self@));
        out
    }

    /// The `charset` parameter.
    pub fn charset(&self) -> (r: Option<&str>)
        requires
            crate::multimap::distinct_keys(self@.params),
        ensures
            r is Some <==> has_key(self@.params, "charset"@),
            r matches Some(c) ==> self@.params[key_index(self@.params, "charset"@)].1 == c@,
    {
        let ghost ps = self@.params;
        let mut i: usize = 0;
        while i < self.params.len()
            invariant
                ps == param_views(self.params@),
                crate::multimap::distinct_keys(ps),
                i <= self.params@.len(),
                forall|j: int| 0 <= j < i ==> (#[trigger] ps[j]).0 != "charset"@,
            decreases self.params@.len() - i,
        {
            assert(ps[i as int] == (self.params@[i as int].0@, self.params@[i as int].1@));
            if str_eq(self.params[i].0.as_str(), "charset") {
                proof {
                    lemma_key_index_unique(ps, i as int);
                }
                return Some(self.params[i].1.as_str());
            }
            i = i + 1;
        }
        None
    }

    /// The same type with the `charset` parameter set to `charset`.
    pub fn with_charset(self, charset: &str) -> (r: MimeType)
        requires
            crate::multimap::distinct_keys(self@.params),
        ensures
            r@ == (MimeView { params: put_param(self@.params, "charset"@, charset@), ..self@ }),
            crate::multimap::distinct_keys(r@.params),
    {
        let mut m = self;
        let key = to_owned_string("charset");
        let value = to_owned_string(charset);
        put_param_exec(&mut m.params, key, value);
        m
    }

    /// Whether the top-level type is `text`.
    pub fn is_text(&self) -> (r: bool)
        ensures
            r == (self@.type_ == "text"@),
    {
        str_eq(self.type_.as_str(), "text")
    }

    /// Whether the top-level type is `image`.
    pub fn is_image(&self) -> (r: bool)
        ensures
            r == (self@.type_ == "image"@),
    {
        str_eq(self.type_.as_str(), "image")
    }

    /// Whether the top-level type is `audio`.
    pub fn is_audio(&self) -> (r: bool)
        ensures
            r == (self@.type_ == "audio"@),
    {
        str_eq(self.type_.as_str(), "audio")
    }

    /// Whether the top-level type is `video`.
    pub fn is_video(&self) -> (r: bool)
        ensures
            r == (self@.type_ == "video"@),
    {
        str_eq(self.type_.as_str(), "video")
    }

    /// Whether the top-level type is `application`.
    pub fn is_application(&self) -> (r: bool)
        ensures
            r == (self@.type_ == "application"@),
    {
        str_eq(self.type_.as_str(), "application")
    }

    /// Whether the subtype or the suffix is `json`.
    pub fn is_json(&self) -> (r: bool)
        ensures
            r == (self@.subtype == "json"@ || self@.suffix == Some("json"@)),
    {
        str_eq(self.subtype.as_str(), "json") || match &self.suffix {
            Some(x) => str_eq(x.as_str(), "json"),
            None => false,
        }
    }

    /// Whether the subtype or the suffix is `xml`.
    pub fn is_xml(&self) -> (r: bool)
        ensures
            r == (self@.subtype == "xml"@ || self@.suffix == Some("xml"@)),
    {
        str_eq(self.subtype.as_str(), "xml") || match &self.suffix {
            Some(x) => str_eq(x.as_str(), "xml"),
            None => false,
        }
    }

    /// The essence followed by `; key=value` for each parameter.
    pub fn to_string(&self) -> (r: String)
        ensures
            r@ == essence_of(self@) + params_text(self@.params),
    {
        let ghost ps = self@.params;
        let mut out = self.essence();
        let mut i: usize = 0;
        assert(ps.subrange(0, 0) =~= Seq::<(Seq<char>, Seq<char>)>::empty());
        while i < self.params.len()
            invariant
                ps == param_views(self.params@),
                i <= self.params@.len(),
                out@ == essence_of(self@) + params_text(ps.subrange(0, i as int)),
            decreases self.params@.len() - i,
        {
            string_push_str(&mut out, "; ");
            string_push_str(&mut out, self.params[i].0.as_str());
            string_push_str(&mut out, "=");
            string_push_str(&mut out, self.params[i].1.as_str());
            proof {
                assert(ps.subrange(0, i + 1).drop_last() =~= ps.subrange(0, i as int));
            }
            i = i + 1;
            assert(out@ =~= essence_of(self@) + params_text(ps.subrange(0, i as int)));
        }
        assert(ps.subrange(0, i as int) =~= ps);
        out
    }
}

impl std::str::FromStr for MimeType {
    type Err = MimeError;

    fn from_str(s: &str) -> Result<MimeType, MimeError> {
        MimeType::parse(s)
    }
}

/// `s` without its leading dots.
pub open spec fn drop_leading_dots(s: Seq<char>) -> Seq<char>
    decreases s.len(),
{
    if s.len() > 0 && s[0] == '.' {
        drop_leading_dots(s.drop_first())
    } else {
        s
    }
}

/// The extension of the last component of a path, as
/// `Path::extension` reads it from the text of the path.
pub uninterp spec fn path_extension(path: Seq<char>) -> Option<Seq<char>>;

/// `Path::new(..).extension()`: the extension of a file name written as text.
#[verifier::external_body]
fn file_name_extension(name: &str) -> (r: Option<String>)
    ensures
        match r {
            Some(e) => path_extension(name@) == Some(e@),
            None => path_extension(name@) is None,
        },
{
    match Path::new(name).extension() {
        Some(e) => match e.to_str() {
            Some(x) => Some(x.to_string()),
            None => None,
        },
        None => None,
    }
}

/// Well-known MIME types and the tables between them and extensions.
pub struct Mime;

/// The MIME type for an extension as given: leading dots dropped, then
/// lowercased.
pub open spec fn extension_lookup(ext: Seq<char>) -> Option<Seq<char>> {
    extension_mime(unicode_lowercase(drop_leading_dots(ext)))
}

/// The MIME type that the leading bytes announce.
pub open spec fn magic_mime(b: Seq<u8>) -> Option<Seq<char>> {
    if b.len() < 4 {
        None
    } else if has_prefix(b, seq![0x89u8, 0x50u8, 0x4Eu8, 0x47u8]) {
        Some("image/png"@)
    } else if has_prefix(b, seq![0xFFu8, 0xD8u8, 0xFFu8]) {
        Some("image/jpeg"@)
    } else if has_prefix(b, seq![0x47u8, 0x49u8, 0x46u8, 0x38u8, 0x37u8, 0x61u8]) || has_prefix(
        b,
        seq![0x47u8, 0x49u8, 0x46u8, 0x38u8, 0x39u8, 0x61u8],
    ) {
        Some("image/gif"@)
    } else if b.len() >= 12 && b.subrange(0, 4) == seq![0x52u8, 0x49u8, 0x46u8, 0x46u8]
        && b.subrange(8, 12) == seq![0x57u8, 0x45u8, 0x42u8, 0x50u8] {
        Some("image/webp"@)
    } else if has_prefix(b, seq![0x25u8, 0x50u8, 0x44u8, 0x46u8]) {
        Some("application/pdf"@)
    } else if has_prefix(b, seq![0x50u8, 0x4Bu8, 0x03u8, 0x04u8]) {
        Some("application/zip"@)
    } else if has_prefix(b, seq![0x1Fu8, 0x8Bu8]) {
        Some("application/gzip"@)
    } else if has_prefix(b, seq![0xFFu8, 0xFBu8]) || has_prefix(b, seq![0xFFu8, 0xFAu8]) || has_prefix(
        b,
        seq![0x49u8, 0x44u8, 0x33u8],
    ) {
        Some("audio/mpeg"@)
    } else if b.len() >= 12 && b.subrange(0, 4) == seq![0x52u8, 0x49u8, 0x46u8, 0x46u8]
        && b.subrange(8, 12) == seq![0x57u8, 0x41u8, 0x56u8, 0x45u8] {
        Some("audio/wav"@)
    } else if b.len() >= 8 && (b.subrange(4, 8) == seq![0x66u8, 0x74u8, 0x79u8, 0x70u8]
        || b.subrange(4, 8) == seq![0x6Du8, 0x64u8, 0x61u8, 0x74u8] || b.subrange(4, 8) == seq![
        0x6Du8,
        0x6Fu8,
        0x6Fu8,
        0x76u8,
    ]) {
        Some("video/mp4"@)
    } else if has_prefix(b, seq![0x1Au8, 0x45u8, 0xDFu8, 0xA3u8]) {
        Some("video/webm"@)
    } else {
        None
    }
}

/// Whether `b[lo..lo+4]` holds the four given bytes.
fn quad_at(b: &[u8], lo: usize, q: [u8; 4]) -> (r: bool)
    requires
        lo + 4 <= b@.len(),
    ensures
        r == (b@.subrange(lo as int, lo + 4) == q@),
{
    let r = b[lo] == q[0] && b[lo + 1] == q[1] && b[lo + 2] == q[2] && b[lo + 3] == q[3];
    proof {
        if r {
            assert(b@.subrange(lo as int, lo + 4) =~= q@);
        } else {
            if b@.subrange(lo as int, lo + 4) == q@ {
                assert(b@.subrange(lo as int, lo + 4)[0] == q@[0]);
                assert(b@.subrange(lo as int, lo + 4)[1] == q@[1]);
                assert(b@.subrange(lo as int, lo + 4)[2] == q@[2]);
                assert(b@.subrange(lo as int, lo + 4)[3] == q@[3]);
            }
        }
    }
    r
}

impl Mime {
    pub const TEXT_PLAIN: &'static str = "text/plain";
    pub const TEXT_HTML: &'static str = "text/html";
    pub const TEXT_CSS: &'static str = "text/css";
    pub const TEXT_JAVASCRIPT: &'static str = "text/javascript";
    pub const TEXT_CSV: &'static str = "text/csv";
    pub const TEXT_XML: &'static str = "text/xml";
    pub const TEXT_MARKDOWN: &'static str = "text/markdown";
    pub const APPLICATION_JSON: &'static str = "application/json";
    pub const APPLICATION_XML: &'static str = "application/xml";
    pub const APPLICATION_PDF: &'static str = "application/pdf";
    pub const APPLICATION_ZIP: &'static str = "application/zip";
    pub const APPLICATION_GZIP: &'static str = "application/gzip";
    pub const APPLICATION_OCTET_STREAM: &'static str = "application/octet-stream";
    pub const APPLICATION_FORM_URLENCODED: &'static str = "application/x-www-form-urlencoded";
    pub const APPLICATION_JAVASCRIPT: &'static str = "application/javascript";
    pub const MULTIPART_FORM_DATA: &'static str = "multipart/form-data";
    pub const IMAGE_PNG: &'static str = "image/png";
    pub const IMAGE_JPEG: &'static str = "image/jpeg";
    pub const IMAGE_GIF: &'static str = "image/gif";
    pub const IMAGE_WEBP: &'static str = "image/webp";
    pub const IMAGE_SVG: &'static str = "image/svg+xml";
    pub const AUDIO_MP3: &'static str = "audio/mpeg";
    pub const AUDIO_WAV: &'static str = "audio/wav";
    pub const AUDIO_OGG: &'static str = "audio/ogg";
    pub const VIDEO_MP4: &'static str = "video/mp4";
    pub const VIDEO_WEBM: &'static str = "video/webm";
    pub const VIDEO_OGG: &'static str = "video/ogg";

    /// The table of extensions.
    fn lookup_extension(ext: &str) -> (r: Option<&'static str>)
        ensures
            match r { Some(m) => extension_mime(ext@) == Some(m@), None => extension_mime(ext@) is None },
    {
        if str_eq(ext, "txt") {
            Some("text/plain")
        } else if str_eq(ext, "html") || str_eq(ext, "htm") {
            Some("text/html")
        } else if str_eq(ext, "css") {
            Some("text/css")
        } else if str_eq(ext, "js") || str_eq(ext, "mjs") {
            Some("text/javascript")
        } else if str_eq(ext, "csv") {
            Some("text/csv")
        } else if str_eq(ext, "xml") {
            Some("text/xml")
        } else if str_eq(ext, "md") || str_eq(ext, "markdown") {
            Some("text/markdown")
        } else if str_eq(ext, "json") {
            Some("application/json")
        } else if str_eq(ext, "pdf") {
            Some("application/pdf")
        } else if str_eq(ext, "zip") {
            Some("application/zip")
        } else if str_eq(ext, "gz") || str_eq(ext, "gzip") {
            Some("application/gzip")
        } else if str_eq(ext, "tar") {
            Some("application/x-tar")
        } else if str_eq(ext, "wasm") {
            Some("application/wasm")
        } else if str_eq(ext, "png") {
            Some("image/png")
        } else if str_eq(ext, "jpg") || str_eq(ext, "jpeg") {
            Some("image/jpeg")
        } else if str_eq(ext, "gif") {
            Some("image/gif")
        } else if str_eq(ext, "webp") {
            Some("image/webp")
        } else if str_eq(ext, "svg") {
            Some("image/svg+xml")
        } else if str_eq(ext, "ico") {
            Some("image/x-icon")
        } else if str_eq(ext, "bmp") {
            Some("image/bmp")
        } else if str_eq(ext, "mp3") {
            Some("audio/mpeg")
        } else if str_eq(ext, "wav") {
            Some("audio/wav")
        } else if str_eq(ext, "ogg") {
            Some("audio/ogg")
        } else if str_eq(ext, "flac") {
            Some("audio/flac")
        } else if str_eq(ext, "aac") {
            Some("audio/aac")
        } else if str_eq(ext, "mp4") || str_eq(ext, "m4v") {
            Some("video/mp4")
        } else if str_eq(ext, "webm") {
            Some("video/webm")
        } else if str_eq(ext, "ogv") {
            Some("video/ogg")
        } else if str_eq(ext, "avi") {
            Some("video/x-msvideo")
        } else if str_eq(ext, "mov") {
            Some("video/quicktime")
        } else if str_eq(ext, "woff") {
            Some("font/woff")
        } else if str_eq(ext, "woff2") {
            Some("font/woff2")
        } else if str_eq(ext, "ttf") {
            Some("font/ttf")
        } else if str_eq(ext, "otf") {
            Some("font/otf")
        } else if str_eq(ext, "eot") {
            Some("application/vnd.ms-fontobject")
        } else if str_eq(ext, "yaml") || str_eq(ext, "yml") {
            Some("application/x-yaml")
        } else if str_eq(ext, "toml") {
            Some("application/toml")
        } else if str_eq(ext, "rs") {
            Some("text/x-rust")
        } else if str_eq(ext, "py") {
            Some("text/x-python")
        } else if str_eq(ext, "rb") {
            Some("text/x-ruby")
        } else if str_eq(ext, "java") {
            Some("text/x-java")
        } else if str_eq(ext, "c") {
            Some("text/x-c")
        } else if str_eq(ext, "cpp") || str_eq(ext, "cc") || str_eq(ext, "cxx") {
            Some("text/x-c++")
        } else if str_eq(ext, "h") {
            Some("text/x-c-header")
        } else if str_eq(ext, "hpp") {
            Some("text/x-c++-header")
        } else if str_eq(ext, "go") {
            Some("text/x-go")
        } else if str_eq(ext, "sh") {
            Some("application/x-sh")
        } else if str_eq(ext, "sql") {
            Some("application/sql")
        } else {
            None
        }
    }

    /// The table of MIME types.
    fn lookup_mime(mime: &str) -> (r: Option<&'static str>)
        ensures
            match r { Some(m) => mime_extension(mime@) == Some(m@), None => mime_extension(mime@) is None },
    {
        if str_eq(mime, "text/plain") {
            Some("txt")
        } else if str_eq(mime, "text/html") {
            Some("html")
        } else if str_eq(mime, "text/css") {
            Some("css")
        } else if str_eq(mime, "text/javascript") || str_eq(mime, "application/javascript") {
            Some("js")
        } else if str_eq(mime, "text/csv") {
            Some("csv")
        } else if str_eq(mime, "text/xml") || str_eq(mime, "application/xml") {
            Some("xml")
        } else if str_eq(mime, "text/markdown") {
            Some("md")
        } else if str_eq(mime, "application/json") {
            Some("json")
        } else if str_eq(mime, "application/pdf") {
            Some("pdf")
        } else if str_eq(mime, "application/zip") {
            Some("zip")
        } else if str_eq(mime, "application/gzip") {
            Some("gz")
        } else if str_eq(mime, "image/png") {
            Some("png")
        } else if str_eq(mime, "image/jpeg") {
            Some("jpg")
        } else if str_eq(mime, "image/gif") {
            Some("gif")
        } else if str_eq(mime, "image/webp") {
            Some("webp")
        } else if str_eq(mime, "image/svg+xml") {
            Some("svg")
        } else if str_eq(mime, "audio/mpeg") {
            Some("mp3")
        } else if str_eq(mime, "audio/wav") {
            Some("wav")
        } else if str_eq(mime, "audio/ogg") {
            Some("ogg")
        } else if str_eq(mime, "video/mp4") {
            Some("mp4")
        } else if str_eq(mime, "video/webm") {
            Some("webm")
        } else {
            None
        }
    }
    /// The MIME type for an extension; leading dots are ignored and case
    /// does not matter.
    pub fn from_extension(ext: &str) -> (r: Option<&'static str>)
        ensures
            match r {
                Some(m) => extension_lookup(ext@) == Some(m@),
                None => extension_lookup(ext@) is None,
            },
            all_ascii(ext@) ==> match r {
                Some(m) => ascii_extension_mime(ext@) == Some(m@),
                None => ascii_extension_mime(ext@) is None,
            },
    {
        let chars = chars_of(ext);
        let n = chars.len();
        let mut i: usize = 0;
        assert(chars@.subrange(0, n as int) =~= ext@);
        while i < n && chars[i] == '.'
            invariant
                n == chars@.len(),
                i <= n,
                drop_leading_dots(ext@) == drop_leading_dots(chars@.subrange(i as int, n as int)),
            decreases n - i,
        {
            assert(chars@.subrange(i as int, n as int).drop_first() =~= chars@.subrange(i + 1, n as int));
            i = i + 1;
        }
        assert(drop_leading_dots(chars@.subrange(i as int, n as int)) == chars@.subrange(i as int, n as int));
        let rest = string_of_range(&chars, i, n);
        proof {
            if all_ascii(ext@) {
                assert forall|j: int| 0 <= j < rest@.len() implies (rest@[j] as u32) < 128 by {
                    assert(rest@[j] == ext@[i + j]);
                }
            }
        }
        let lower = str_to_lowercase(rest.as_str());
        Self::lookup_extension(lower.as_str())
    }

    /// The usual extension for a MIME type, matched exactly.
    pub fn to_extension(mime: &str) -> (r: Option<&'static str>)
        ensures
            match r {
                Some(e) => mime_extension(mime@) == Some(e@),
                None => mime_extension(mime@) is None,
            },
    {
        Self::lookup_mime(mime)
    }

    /// The MIME type for the extension of a file name.
    pub fn from_filename(filename: &str) -> (r: Option<&'static str>)
        ensures
            match path_extension(filename@) {
                Some(e) => match r {
                    Some(m) => extension_lookup(e) == Some(m@),
                    None => extension_lookup(e) is None,
                },
                None => r is None,
            },
    {
        match file_name_extension(filename) {
            Some(e) => Self::from_extension(e.as_str()),
            None => None,
        }
    }

    /// The MIME type that the magic bytes at the start of `bytes` announce.
    pub fn from_bytes(bytes: &[u8]) -> (r: Option<&'static str>)
        ensures
            match r {
                Some(m) => magic_mime(bytes@) == Some(m@),
                None => magic_mime(bytes@) is None,
            },
    {
        if bytes.len() < 4 {
            return None;
        }
        let png: [u8; 4] = [0x89, 0x50, 0x4E, 0x47];
        let jpeg: [u8; 3] = [0xFF, 0xD8, 0xFF];
        let gif7: [u8; 6] = [0x47, 0x49, 0x46, 0x38, 0x37, 0x61];
        let gif9: [u8; 6] = [0x47, 0x49, 0x46, 0x38, 0x39, 0x61];
        let pdf: [u8; 4] = [0x25, 0x50, 0x44, 0x46];
        let zip: [u8; 4] = [0x50, 0x4B, 0x03, 0x04];
        let gz: [u8; 2] = [0x1F, 0x8B];
        let mp3a: [u8; 2] = [0xFF, 0xFB];
        let mp3b: [u8; 2] = [0xFF, 0xFA];
        let id3: [u8; 3] = [0x49, 0x44, 0x33];
        let ebml: [u8; 4] = [0x1A, 0x45, 0xDF, 0xA3];
        assert(png@ =~= seq![0x89u8, 0x50u8, 0x4Eu8, 0x47u8]);
        assert(jpeg@ =~= seq![0xFFu8, 0xD8u8, 0xFFu8]);
        assert(gif7@ =~= seq![0x47u8, 0x49u8, 0x46u8, 0x38u8, 0x37u8, 0x61u8]);
        assert(gif9@ =~= seq![0x47u8, 0x49u8, 0x46u8, 0x38u8, 0x39u8, 0x61u8]);
        assert(pdf@ =~= seq![0x25u8, 0x50u8, 0x44u8, 0x46u8]);
        assert(zip@ =~= seq![0x50u8, 0x4Bu8, 0x03u8, 0x04u8]);
        assert(gz@ =~= seq![0x1Fu8, 0x8Bu8]);
        assert(mp3a@ =~= seq![0xFFu8, 0xFBu8]);
        assert(mp3b@ =~= seq![0xFFu8, 0xFAu8]);
        assert(id3@ =~= seq![0x49u8, 0x44u8, 0x33u8]);
        assert(ebml@ =~= seq![0x1Au8, 0x45u8, 0xDFu8, 0xA3u8]);
        let riff: [u8; 4] = [0x52, 0x49, 0x46, 0x46];
        let webp: [u8; 4] = [0x57, 0x45, 0x42, 0x50];
        let wave: [u8; 4] = [0x57, 0x41, 0x56, 0x45];
        let ftyp: [u8; 4] = [0x66, 0x74, 0x79, 0x70];
        let mdat: [u8; 4] = [0x6D, 0x64, 0x61, 0x74];
        let moov: [u8; 4] = [0x6D, 0x6F, 0x6F, 0x76];
        assert(riff@ =~= seq![0x52u8, 0x49u8, 0x46u8, 0x46u8]);
        assert(webp@ =~= seq![0x57u8, 0x45u8, 0x42u8, 0x50u8]);
        assert(wave@ =~= seq![0x57u8, 0x41u8, 0x56u8, 0x45u8]);
        assert(ftyp@ =~= seq![0x66u8, 0x74u8, 0x79u8, 0x70u8]);
        assert(mdat@ =~= seq![0x6Du8, 0x64u8, 0x61u8, 0x74u8]);
        assert(moov@ =~= seq![0x6Du8, 0x6Fu8, 0x6Fu8, 0x76u8]);
        if starts_with(bytes, &png) {
            return Some(Self::IMAGE_PNG);
        }
        if starts_with(bytes, &jpeg) {
            return Some(Self::IMAGE_JPEG);
        }
        if starts_with(bytes, &gif7) || starts_with(bytes, &gif9) {
            return Some(Self::IMAGE_GIF);
        }
        let long = bytes.len() >= 12;
        if long && quad_at(bytes, 0, riff) && quad_at(bytes, 8, webp) {
            return Some(Self::IMAGE_WEBP);
        }
        if starts_with(bytes, &pdf) {
            return Some(Self::APPLICATION_PDF);
        }
        if starts_with(bytes, &zip) {
            return Some(Self::APPLICATION_ZIP);
        }
        if starts_with(bytes, &gz) {
            return Some(Self::APPLICATION_GZIP);
        }
        if starts_with(bytes, &mp3a) || starts_with(bytes, &mp3b) || starts_with(bytes, &id3) {
            return Some(Self::AUDIO_MP3);
        }
        if long && quad_at(bytes, 0, riff) && quad_at(bytes, 8, wave) {
            return Some(Self::AUDIO_WAV);
        }
        if bytes.len() >= 8 && (quad_at(bytes, 4, ftyp) || quad_at(bytes, 4, mdat) || quad_at(
            bytes,
            4,
            moov,
        )) {
            return Some(Self::VIDEO_MP4);
        }
        if starts_with(bytes, &ebml) {
            return Some(Self::VIDEO_WEBM);
        }
        None
    }
}

} // verus!
