# monocle_cli

The decisions behind a command-line toolbox for BGP data, as a library verified with Verus, and
the program around it.

`src/` is the library:

- `filters`: the filters of the parse and search commands, and the time window of a search;
- `time`: instants and lengths of time, with what a length leads to from an instant;
- `length`: texts of lengths of time, what they stand for, and which come to more than can be held;
- `json`: how JSON strings and objects are written, and what they read back as;
- `elem`: how a BGP element is shown, as a line or as JSON;
- `output`: where the messages of a search go, in which batches, and what is said of them;
- `mrt`: the messages that are written into an MRT file;
- `whois`: what a lookup of AS numbers compares, and how its results are ordered and listed;
- `rpki`: what a list of ROAs is asked for by;
- `radar`: scopes, statuses and tables of routing statistics and prefix origins;
- `decimal`: integers in decimal text.

Each executable function has a contract that Verus proves. A few private functions call other
crates, and Verus takes their contracts on trust; their doc comments name what they call and say
what is claimed of it. Public proof functions state what holds across functions.

`app/` is the program: it reads arguments, fetches data, asks the library what to make of them,
works out percentages, and prints. It draws its data from the monocle library.
