# laesutkontroll

Logs into a heat-sensor web application, reads which rooms and sensors its
logging page shows, and appends each sensor's new data to a CSV file of its
own.

- `src/` is the library, verified with Verus: the configuration file format
  and the prompts that complete it (`login`), the house/room model and its
  text (`logging`), reading the page with `scraper` (`page`), the request
  forms (`post`), and the CSV data, log entries and paths (`miscellaneous`),
  on top of character-level helpers (`text`).
- `app/` is the program: files, standard input and HTTP (`reqwest`, `tokio`).
- `tests/` runs the library on concrete values.

The configuration file looks like this (the program writes it when it had
to ask for a value):

    Username:john.doe@example.com
    Password:Tr0ub4dor&3
    IP address:192.168.1.1
    Log location:usr/local/bin/sensor_logs/
