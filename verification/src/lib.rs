//! Library side of a heat-sensor logger: the data model of the sensor web
//! page, the configuration file format, the request forms and the text that
//! the program writes to its CSV and log files.

pub mod text;
pub mod login;
pub mod logging;
pub mod html;
pub mod page;
pub mod miscellaneous;
pub mod post;
